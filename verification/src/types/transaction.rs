use vstd::prelude::*;
use vstd::utf8::encode_utf8;
use vstd::string::StrSliceExecFns;
use vstd::string::StringExecFns;
use crate::crypto::Keypair;
use crate::crypto::digest;
use crate::crypto::hex_encode;
use crate::crypto::sign_bytes;
use crate::crypto::spec_digest;
use crate::crypto::spec_hex_chars;
use crate::crypto::spec_public_of;
use crate::crypto::spec_sig_valid;
use crate::crypto::spec_signature_of;
use crate::crypto::verify_bytes;
use crate::encode::push_bytes_enc;
use crate::encode::push_opt_str_enc;
use crate::encode::push_str_enc;
use crate::encode::push_u128_be;
use crate::encode::spec_bytes_enc;
use crate::encode::spec_opt_str_enc;
use crate::encode::spec_str_enc;
use crate::encode::spec_u128_be;
use crate::messages::msg_balance_overflow;
use crate::messages::msg_insufficient_funds;
use crate::messages::msg_invalid_account;
use crate::messages::msg_mint_only_genesis;
use crate::messages::msg_should_be_signed;
use crate::messages::msg_should_have_sender;
use crate::messages::msg_sig_prefix;
use crate::messages::msg_sig_verify_failed;
use crate::messages::msg_transfer_from_missing;
use crate::messages::msg_transfer_to_missing;
use crate::traits::Hashable;
use crate::traits::WorldState;
use crate::types::AccountId;
use crate::types::AccountType;
use crate::types::AccountV;
use crate::types::Balance;
use crate::types::Error;
use crate::types::Timestamp;
use crate::types::account::clone_bytes;

verus! {

/// What a transaction does: create an account, mint the initial supply
/// (genesis only), or transfer tokens (signed).
#[derive(Debug, Clone)]
pub enum TransactionData {
    CreateAccount { account_id: AccountId, public_key: Vec<u8> },
    MintInitialSupply { to: AccountId, amount: Balance },
    Transfer { to: AccountId, amount: Balance },
}

/// The mathematical shadow of a transaction body.
pub enum TransactionDataV {
    CreateAccount { account_id: Seq<char>, public_key: Seq<u8> },
    MintInitialSupply { to: Seq<char>, amount: Balance },
    Transfer { to: Seq<char>, amount: Balance },
}

impl View for TransactionData {
    type V = TransactionDataV;

    open spec fn view(&self) -> TransactionDataV {
        match self {
            TransactionData::CreateAccount { account_id, public_key } => {
                TransactionDataV::CreateAccount {
                    account_id: account_id@,
                    public_key: public_key@,
                }
            },
            TransactionData::MintInitialSupply { to, amount } => {
                TransactionDataV::MintInitialSupply { to: to@, amount: *amount }
            },
            TransactionData::Transfer { to, amount } => {
                TransactionDataV::Transfer { to: to@, amount: *amount }
            },
        }
    }
}

/// The view of an optional string.
pub open spec fn opt_str_view(o: Option<String>) -> Option<Seq<char>> {
    match o {
        None => None,
        Some(s) => Some(s@),
    }
}

/// The view of an optional byte string.
pub open spec fn opt_bytes_view(o: Option<Vec<u8>>) -> Option<Seq<u8>> {
    match o {
        None => None,
        Some(b) => Some(b@),
    }
}

/// A ledger transaction. The signature, when present, signs the
/// transaction's hash; it is not itself part of the hash.
#[derive(Debug, Clone)]
pub struct Transaction {
    pub nonce: u128,
    pub timestamp: Timestamp,
    pub from: Option<AccountId>,
    pub data: TransactionData,
    pub signature: Option<Vec<u8>>,
}

/// The mathematical shadow of a transaction.
pub struct TransactionV {
    pub nonce: u128,
    pub timestamp: Timestamp,
    pub from: Option<Seq<char>>,
    pub data: TransactionDataV,
    pub signature: Option<Seq<u8>>,
}

impl View for Transaction {
    type V = TransactionV;

    open spec fn view(&self) -> TransactionV {
        TransactionV {
            nonce: self.nonce,
            timestamp: self.timestamp,
            from: opt_str_view(self.from),
            data: self.data@,
            signature: opt_bytes_view(self.signature),
        }
    }
}

/// The canonical bytes of a transaction body: a tag, then its fields.
pub open spec fn spec_data_enc(d: TransactionDataV) -> Seq<u8> {
    match d {
        TransactionDataV::CreateAccount { account_id, public_key } => seq![0u8] + spec_str_enc(
            account_id,
        ) + spec_bytes_enc(public_key),
        TransactionDataV::MintInitialSupply { to, amount } => seq![1u8] + spec_str_enc(to)
            + spec_u128_be(amount),
        TransactionDataV::Transfer { to, amount } => seq![2u8] + spec_str_enc(to) + spec_u128_be(
            amount,
        ),
    }
}

/// The canonical bytes a transaction is hashed over; the signature does
/// not participate.
pub open spec fn spec_tx_preimage(t: TransactionV) -> Seq<u8> {
    spec_u128_be(t.nonce) + spec_u128_be(t.timestamp) + spec_opt_str_enc(t.from) + spec_data_enc(
        t.data,
    )
}

/// A transaction's digest bytes.
pub open spec fn spec_tx_digest(t: TransactionV) -> Seq<u8> {
    spec_digest(spec_tx_preimage(t))
}

/// A transaction's hash: the lowercase hex text of its digest.
pub open spec fn spec_tx_hash(t: TransactionV) -> Seq<char> {
    spec_hex_chars(spec_tx_digest(t))
}

/// The bytes a transaction's signature is checked against: the UTF-8 form
/// of its hash text.
pub open spec fn spec_tx_sig_msg(t: TransactionV) -> Seq<u8> {
    encode_utf8(spec_tx_hash(t))
}

/// The canonical hashed bytes separate a transaction's nonce and
/// timestamp: transactions that differ there are hashed over different
/// bytes.
pub proof fn lemma_tx_preimage_separates_header(t1: TransactionV, t2: TransactionV)
    requires
        spec_tx_preimage(t1) == spec_tx_preimage(t2),
    ensures
        t1.nonce == t2.nonce,
        t1.timestamp == t2.timestamp,
{
    let p1 = spec_tx_preimage(t1);
    let p2 = spec_tx_preimage(t2);
    assert(spec_u128_be(t1.nonce) =~= p1.subrange(0, 16));
    assert(spec_u128_be(t2.nonce) =~= p2.subrange(0, 16));
    crate::encode::lemma_u128_be_injective(t1.nonce, t2.nonce);
    assert(spec_u128_be(t1.timestamp) =~= p1.subrange(16, 32));
    assert(spec_u128_be(t2.timestamp) =~= p2.subrange(16, 32));
    crate::encode::lemma_u128_be_injective(t1.timestamp, t2.timestamp);
}

/// Builds the canonical hashed bytes of a transaction.
pub fn tx_preimage(t: &Transaction) -> (r: Vec<u8>)
    ensures
        r@ == spec_tx_preimage(t@),
{
    let mut out: Vec<u8> = Vec::new();
    push_u128_be(&mut out, t.nonce);
    push_u128_be(&mut out, t.timestamp);
    push_opt_str_enc(&mut out, &t.from);
    match &t.data {
        TransactionData::CreateAccount { account_id, public_key } => {
            out.push(0u8);
            push_str_enc(&mut out, account_id);
            push_bytes_enc(&mut out, public_key);
        },
        TransactionData::MintInitialSupply { to, amount } => {
            out.push(1u8);
            push_str_enc(&mut out, to);
            push_u128_be(&mut out, *amount);
        },
        TransactionData::Transfer { to, amount } => {
            out.push(2u8);
            push_str_enc(&mut out, to);
            push_u128_be(&mut out, *amount);
        },
    }
    assert(out@ =~= spec_tx_preimage(t@));
    out
}

/// Whether the world state accepts the signature on a transaction: it
/// must be present, name a sender, the sender must exist, and the
/// signature must check out against the sender's bound key over the
/// transaction's current hash.
pub open spec fn spec_verify_signature(t: TransactionV, m: Map<Seq<char>, AccountV>) -> Result<
    (),
    Seq<char>,
> {
    if t.signature is None {
        Err(msg_should_be_signed())
    } else if t.from is None {
        Err(msg_should_have_sender())
    } else if !m.contains_key(t.from->0) {
        Err(msg_should_have_sender())
    } else if !spec_sig_valid(m[t.from->0].public_key, spec_tx_sig_msg(t), t.signature->0) {
        Err(msg_sig_verify_failed())
    } else {
        Ok(())
    }
}

/// What executing a transaction does to the world state, or the exact
/// error it stops with. Effects are all-or-nothing.
pub open spec fn spec_execute(t: TransactionV, m: Map<Seq<char>, AccountV>, is_genesis: bool) -> Result<
    Map<Seq<char>, AccountV>,
    Seq<char>,
> {
    match t.data {
        TransactionDataV::CreateAccount { account_id, public_key } => {
            if m.contains_key(account_id) {
                Err(crate::messages::msg_account_exists())
            } else {
                Ok(
                    m.insert(
                        account_id,
                        (AccountV { account_type: AccountType::User, balance: 0, public_key }),
                    ),
                )
            }
        },
        TransactionDataV::MintInitialSupply { to, amount } => {
            if !is_genesis {
                Err(msg_mint_only_genesis())
            } else if !m.contains_key(to) {
                Err(msg_invalid_account())
            } else if m[to].balance + amount > u128::MAX {
                Err(msg_balance_overflow())
            } else {
                Ok(
                    m.insert(
                        to,
                        (AccountV {
                            account_type: m[to].account_type,
                            balance: (m[to].balance + amount) as u128,
                            public_key: m[to].public_key,
                        }),
                    ),
                )
            }
        },
        TransactionDataV::Transfer { to, amount } => {
            if t.from is None {
                Err(msg_transfer_from_missing())
            } else if !m.contains_key(t.from->0) {
                Err(msg_transfer_from_missing())
            } else if !m.contains_key(to) {
                Err(msg_transfer_to_missing())
            } else {
                match spec_verify_signature(t, m) {
                    Err(e) => Err(msg_sig_prefix(e)),
                    Ok(()) => {
                        let sender = m[t.from->0];
                        if sender.balance < amount {
                            Err(msg_insufficient_funds())
                        } else {
                            let m1 = m.insert(
                                t.from->0,
                                (AccountV {
                                    account_type: sender.account_type,
                                    balance: (sender.balance - amount) as u128,
                                    public_key: sender.public_key,
                                }),
                            );
                            if m1[to].balance + amount > u128::MAX {
                                Err(msg_balance_overflow())
                            } else {
                                Ok(
                                    m1.insert(
                                        to,
                                        (AccountV {
                                            account_type: m1[to].account_type,
                                            balance: (m1[to].balance + amount) as u128,
                                            public_key: m1[to].public_key,
                                        }),
                                    ),
                                )
                            }
                        }
                    },
                }
            }
        },
    }
}

/// A properly signed transaction passes the signature check: when the
/// sender exists and the scheme accepts the stored signature for the
/// sender's bound key over the transaction's hash (which is exactly what
/// `Transaction::sign` establishes for the signing keypair), the check
/// returns Ok.
pub proof fn lemma_signed_transaction_verifies(t: TransactionV, m: Map<Seq<char>, AccountV>)
    requires
        t.signature is Some,
        t.from is Some,
        m.contains_key(t.from->0),
        spec_sig_valid(m[t.from->0].public_key, spec_tx_sig_msg(t), t.signature->0),
    ensures
        spec_verify_signature(t, m) is Ok,
{
}

impl Transaction {
    /// A fresh unsigned transaction with zero nonce and timestamp.
    pub fn new(data: TransactionData, from: Option<AccountId>) -> (r: Self)
        ensures
            r@ == (TransactionV {
                nonce: 0,
                timestamp: 0,
                from: opt_str_view(from),
                data: data@,
                signature: None,
            }),
    {
        Self { nonce: 0, timestamp: 0, from, data, signature: None }
    }

    /// Signs the transaction's current hash with the keypair. Mutating any
    /// hashed field afterwards leaves the signature stale.
    pub fn sign(&mut self, keypair: &Keypair)
        requires
            keypair.secret@.len() == 32,
        ensures
            final(self)@ == (TransactionV {
                signature: Some(spec_signature_of(keypair.secret@, spec_tx_sig_msg(old(self)@))),
                ..old(self)@
            }),
            spec_sig_valid(
                spec_public_of(keypair.secret@),
                spec_tx_sig_msg(old(self)@),
                spec_signature_of(keypair.secret@, spec_tx_sig_msg(old(self)@)),
            ),
    {
        let h = self.hash();
        let msg = h.as_str().as_bytes_vec();
        let sig = sign_bytes(&keypair.secret, &msg);
        self.signature = Some(sig);
    }

    /// Checks the signature against the world state; the state itself is
    /// left untouched.
    pub fn verify_signature<T: WorldState>(&self, state: &mut T) -> (r: Result<(), Error>)
        ensures
            *final(state) == *old(state),
            match r {
                Ok(()) => spec_verify_signature(self@, old(state).state_map()) is Ok,
                Err(e) => spec_verify_signature(self@, old(state).state_map()) == Err::<
                    (),
                    Seq<char>,
                >(e@),
            },
    {
        let sig = match &self.signature {
            None => {
                return Err("Error: msg should be signed".to_owned());
            },
            Some(sig) => sig,
        };
        let from = match &self.from {
            None => {
                return Err("Error: msg should have sender to sign it".to_owned());
            },
            Some(from) => from,
        };
        let account = match state.get_account_by_id(from.clone()) {
            None => {
                return Err("Error: msg should have sender to sign it".to_owned());
            },
            Some(account) => account,
        };
        let h = self.hash();
        let msg = h.as_str().as_bytes_vec();
        if verify_bytes(&account.public_key, &msg, sig) {
            Ok(())
        } else {
            Err("Error: error occurred while verifying signature".to_owned())
        }
    }

    /// Executes the transaction against the world state: the state ends
    /// exactly as `spec_execute` says, and is untouched on error.
    pub fn execute<T: WorldState>(&self, state: &mut T, is_genesis: bool) -> (r: Result<(), Error>)
        ensures
            final(state).state_frame() == old(state).state_frame(),
            match r {
                Ok(()) => spec_execute(self@, old(state).state_map(), is_genesis) == Ok::<
                    Map<Seq<char>, AccountV>,
                    Seq<char>,
                >(final(state).state_map()),
                Err(e) => final(state).state_map() == old(state).state_map() && spec_execute(
                    self@,
                    old(state).state_map(),
                    is_genesis,
                ) == Err::<Map<Seq<char>, AccountV>, Seq<char>>(e@),
            },
    {
        match &self.data {
            TransactionData::CreateAccount { account_id, public_key } => {
                state.create_account(account_id.clone(), AccountType::User, clone_bytes(public_key))
            },
            TransactionData::MintInitialSupply { to, amount } => {
                if !is_genesis {
                    return Err("Initial supply can be minted only in genesis block.".to_owned());
                }
                let balance = match state.get_account_by_id(to.clone()) {
                    None => {
                        return Err("Invalid account.".to_owned());
                    },
                    Some(account) => account.balance,
                };
                let new_balance = match balance.checked_add(*amount) {
                    None => {
                        return Err("Balance overflow.".to_owned());
                    },
                    Some(b) => b,
                };
                state.set_balance(to.clone(), new_balance);
                Ok(())
            },
            TransactionData::Transfer { to, amount } => {
                let from = match &self.from {
                    None => {
                        return Err("You can't make transfer from non-existing account".to_owned());
                    },
                    Some(from) => from,
                };
                let sender_balance = match state.get_account_by_id(from.clone()) {
                    None => {
                        return Err("You can't make transfer from non-existing account".to_owned());
                    },
                    Some(account) => account.balance,
                };
                if state.get_account_by_id(to.clone()).is_none() {
                    return Err("You can't make transfer to non-existing account".to_owned());
                }
                if let Err(e) = self.verify_signature(state) {
                    let mut r = "Error while verifying signature: ".to_owned();
                    r.append(e.as_str());
                    return Err(r);
                }
                if sender_balance < *amount {
                    return Err("You can't transfer more tokens than you have".to_owned());
                }
                let receiver_balance = if *from == *to {
                    sender_balance - *amount
                } else {
                    match state.get_account_by_id(to.clone()) {
                        None => {
                            return Err(
                                "You can't make transfer to non-existing account".to_owned(),
                            );
                        },
                        Some(account) => account.balance,
                    }
                };
                let new_receiver_balance = match receiver_balance.checked_add(*amount) {
                    None => {
                        return Err("Balance overflow.".to_owned());
                    },
                    Some(b) => b,
                };
                state.set_balance(from.clone(), sender_balance - *amount);
                state.set_balance(to.clone(), new_receiver_balance);
                Ok(())
            },
        }
    }
}

impl Hashable for Transaction {
    open spec fn hash_spec(&self) -> Seq<char> {
        spec_tx_hash(self@)
    }

    fn hash(&self) -> (r: crate::types::Hash) {
        let pre = tx_preimage(self);
        let d = digest(&pre);
        hex_encode(&d)
    }
}

} // verus!
