//! Cryptographic primitives: the fixed-output digest used for block and
//! transaction hashing, lowercase hex text, and the digital-signature
//! scheme used by transfers. The outside calls stand behind trusted
//! wrappers; everything a wrapper promises is either spelled out exactly
//! (hex) or given an opaque name (the digest, the signature scheme).

use vstd::prelude::*;
use blake2::Digest;
use ed25519_dalek::Verifier;

verus! {

/// The lowercase hex digit for a value below sixteen.
pub open spec fn spec_hex_char(v: int) -> char {
    if v == 0 {
        '0'
    } else if v == 1 {
        '1'
    } else if v == 2 {
        '2'
    } else if v == 3 {
        '3'
    } else if v == 4 {
        '4'
    } else if v == 5 {
        '5'
    } else if v == 6 {
        '6'
    } else if v == 7 {
        '7'
    } else if v == 8 {
        '8'
    } else if v == 9 {
        '9'
    } else if v == 10 {
        'a'
    } else if v == 11 {
        'b'
    } else if v == 12 {
        'c'
    } else if v == 13 {
        'd'
    } else if v == 14 {
        'e'
    } else {
        'f'
    }
}

/// Two lowercase hex digits for one byte, high nibble first.
pub open spec fn spec_hex_byte(x: u8) -> Seq<char> {
    seq![spec_hex_char(x as int / 16), spec_hex_char(x as int % 16)]
}

/// The lowercase hex text of a byte string, two digits per byte, in order.
pub open spec fn spec_hex_chars(b: Seq<u8>) -> Seq<char>
    decreases b.len(),
{
    if b.len() == 0 {
        Seq::empty()
    } else {
        spec_hex_byte(b[0]) + spec_hex_chars(b.drop_first())
    }
}

/// Hex text has two characters per byte, each one a lowercase hex
/// digit; a hash, being the hex text of a 32-byte digest, is 64 such
/// characters.
pub proof fn lemma_hex_chars_shape(b: Seq<u8>)
    ensures
        spec_hex_chars(b).len() == 2 * b.len(),
        forall|i: int|
            0 <= i < spec_hex_chars(b).len() ==> exists|v: int|
                0 <= v < 16 && #[trigger] spec_hex_chars(b)[i] == #[trigger] spec_hex_char(v),
    decreases b.len(),
{
    if b.len() > 0 {
        lemma_hex_chars_shape(b.drop_first());
        assert forall|i: int| 0 <= i < spec_hex_chars(b).len() implies exists|v: int|
            0 <= v < 16 && #[trigger] spec_hex_chars(b)[i] == #[trigger] spec_hex_char(v) by {
            if i == 0 {
                assert(spec_hex_chars(b)[0] == spec_hex_char(b[0] as int / 16));
            } else if i == 1 {
                assert(spec_hex_chars(b)[1] == spec_hex_char(b[0] as int % 16));
            } else {
                assert(spec_hex_chars(b)[i] == spec_hex_chars(b.drop_first())[i - 2]);
            }
        }
    }
}

/// The 32-byte digest of a byte string. The digest is a function of its
/// input alone; nothing more is assumed of it.
pub uninterp spec fn spec_digest(input: Seq<u8>) -> Seq<u8>;

/// Relies on blake2::Blake2s::digest: a 32-byte digest computed from the
/// input bytes alone.
#[verifier::external_body]
pub fn digest(input: &Vec<u8>) -> (r: Vec<u8>)
    ensures
        r@ == spec_digest(input@),
        r@.len() == 32,
{
    blake2::Blake2s::digest(input.as_slice()).to_vec()
}

/// Relies on hex::encode: two lowercase hex digits per byte, in order.
#[verifier::external_body]
pub fn hex_encode(b: &Vec<u8>) -> (r: String)
    ensures
        r@ == spec_hex_chars(b@),
{
    hex::encode(b)
}

/// The public key that the signature scheme derives from a 32-byte secret
/// seed.
pub uninterp spec fn spec_public_of(secret: Seq<u8>) -> Seq<u8>;

/// The signature that the scheme produces for a secret seed and a message;
/// it depends on the seed and the message alone.
pub uninterp spec fn spec_signature_of(secret: Seq<u8>, msg: Seq<u8>) -> Seq<u8>;

/// Whether the scheme accepts a signature for a public key and a message;
/// a pure function of the three byte strings.
pub uninterp spec fn spec_sig_valid(public: Seq<u8>, msg: Seq<u8>, sig: Seq<u8>) -> bool;

/// A signing keypair: a 32-byte secret seed and the public key derived
/// from it.
#[derive(Debug)]
pub struct Keypair {
    pub secret: Vec<u8>,
    pub public: Vec<u8>,
}

impl Keypair {
    /// The public key is the one the scheme derives from the secret.
    pub open spec fn wf(&self) -> bool {
        self.secret@.len() == 32 && self.public@ == spec_public_of(self.secret@)
    }
}

/// Relies on ed25519_dalek::Keypair::generate with the operating-system
/// random source: a fresh 32-byte secret whose public key is derived from
/// it deterministically. Nothing is promised of which secret comes out.
#[verifier::external_body]
pub fn generate_keypair_bytes() -> (r: (Vec<u8>, Vec<u8>))
    ensures
        r.0@.len() == 32,
        r.1@.len() == 32,
        r.1@ == spec_public_of(r.0@),
{
    let keypair = ed25519_dalek::Keypair::generate(&mut rand::rngs::OsRng {});
    (keypair.secret.to_bytes().to_vec(), keypair.public.to_bytes().to_vec())
}

/// Relies on ed25519_dalek::ExpandedSecretKey::sign: a deterministic
/// 64-byte signature that the scheme itself accepts for the derived public
/// key and the signed message.
#[verifier::external_body]
pub fn sign_bytes(secret: &Vec<u8>, msg: &Vec<u8>) -> (r: Vec<u8>)
    requires
        secret@.len() == 32,
    ensures
        r@ == spec_signature_of(secret@, msg@),
        r@.len() == 64,
        spec_sig_valid(spec_public_of(secret@), msg@, r@),
{
    let secret_key = ed25519_dalek::SecretKey::from_bytes(secret.as_slice()).unwrap();
    let public_key = ed25519_dalek::PublicKey::from(&secret_key);
    let expanded = ed25519_dalek::ExpandedSecretKey::from(&secret_key);
    expanded.sign(msg.as_slice(), &public_key).to_bytes().to_vec()
}

/// Relies on ed25519_dalek::PublicKey::verify: whether the scheme accepts
/// the signature; bytes that parse as no key or no signature are rejected.
#[verifier::external_body]
pub fn verify_bytes(public: &Vec<u8>, msg: &Vec<u8>, sig: &Vec<u8>) -> (r: bool)
    ensures
        r == spec_sig_valid(public@, msg@, sig@),
{
    let Ok(public_key) = ed25519_dalek::PublicKey::from_bytes(public.as_slice()) else {
        return false;
    };
    let Ok(signature) = ed25519_dalek::Signature::try_from(sig.as_slice()) else {
        return false;
    };
    public_key.verify(msg.as_slice(), &signature).is_ok()
}

} // verus!
