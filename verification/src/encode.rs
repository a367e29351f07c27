//! Canonical byte encoding for the fields that participate in block and
//! transaction hashing. Every field serializes deterministically: integers
//! as fixed-width big-endian bytes, text as a length prefix followed by its
//! UTF-8 bytes, options as a one-byte tag.

use vstd::prelude::*;
use vstd::utf8::encode_utf8;

verus! {

/// The sixteen big-endian bytes of a 128-bit integer.
pub open spec fn spec_u128_be(x: u128) -> Seq<u8> {
    seq![
        ((x >> 120) & 0xff) as u8,
        ((x >> 112) & 0xff) as u8,
        ((x >> 104) & 0xff) as u8,
        ((x >> 96) & 0xff) as u8,
        ((x >> 88) & 0xff) as u8,
        ((x >> 80) & 0xff) as u8,
        ((x >> 72) & 0xff) as u8,
        ((x >> 64) & 0xff) as u8,
        ((x >> 56) & 0xff) as u8,
        ((x >> 48) & 0xff) as u8,
        ((x >> 40) & 0xff) as u8,
        ((x >> 32) & 0xff) as u8,
        ((x >> 24) & 0xff) as u8,
        ((x >> 16) & 0xff) as u8,
        ((x >> 8) & 0xff) as u8,
        (x & 0xff) as u8,
    ]
}

/// Text encodes as the byte length of its UTF-8 form followed by that form.
pub open spec fn spec_str_enc(s: Seq<char>) -> Seq<u8> {
    spec_u128_be(encode_utf8(s).len() as u128) + encode_utf8(s)
}

/// An optional string encodes as a one-byte tag, then the string if present.
pub open spec fn spec_opt_str_enc(s: Option<Seq<char>>) -> Seq<u8> {
    match s {
        None => seq![0u8],
        Some(t) => seq![1u8] + spec_str_enc(t),
    }
}

/// A byte string encodes as its length followed by its bytes.
pub open spec fn spec_bytes_enc(b: Seq<u8>) -> Seq<u8> {
    spec_u128_be(b.len() as u128) + b
}

/// The sixteen-byte encoding is injective: equal bytes mean equal
/// integers.
pub proof fn lemma_u128_be_injective(x: u128, y: u128)
    requires
        spec_u128_be(x) == spec_u128_be(y),
    ensures
        x == y,
{
    assert(spec_u128_be(x)[0] == spec_u128_be(y)[0]);
    assert(spec_u128_be(x)[1] == spec_u128_be(y)[1]);
    assert(spec_u128_be(x)[2] == spec_u128_be(y)[2]);
    assert(spec_u128_be(x)[3] == spec_u128_be(y)[3]);
    assert(spec_u128_be(x)[4] == spec_u128_be(y)[4]);
    assert(spec_u128_be(x)[5] == spec_u128_be(y)[5]);
    assert(spec_u128_be(x)[6] == spec_u128_be(y)[6]);
    assert(spec_u128_be(x)[7] == spec_u128_be(y)[7]);
    assert(spec_u128_be(x)[8] == spec_u128_be(y)[8]);
    assert(spec_u128_be(x)[9] == spec_u128_be(y)[9]);
    assert(spec_u128_be(x)[10] == spec_u128_be(y)[10]);
    assert(spec_u128_be(x)[11] == spec_u128_be(y)[11]);
    assert(spec_u128_be(x)[12] == spec_u128_be(y)[12]);
    assert(spec_u128_be(x)[13] == spec_u128_be(y)[13]);
    assert(spec_u128_be(x)[14] == spec_u128_be(y)[14]);
    assert(spec_u128_be(x)[15] == spec_u128_be(y)[15]);
    assert(x == y) by (bit_vector)
        requires
            ((x >> 120) & 0xff) as u8 == ((y >> 120) & 0xff) as u8,
            ((x >> 112) & 0xff) as u8 == ((y >> 112) & 0xff) as u8,
            ((x >> 104) & 0xff) as u8 == ((y >> 104) & 0xff) as u8,
            ((x >> 96) & 0xff) as u8 == ((y >> 96) & 0xff) as u8,
            ((x >> 88) & 0xff) as u8 == ((y >> 88) & 0xff) as u8,
            ((x >> 80) & 0xff) as u8 == ((y >> 80) & 0xff) as u8,
            ((x >> 72) & 0xff) as u8 == ((y >> 72) & 0xff) as u8,
            ((x >> 64) & 0xff) as u8 == ((y >> 64) & 0xff) as u8,
            ((x >> 56) & 0xff) as u8 == ((y >> 56) & 0xff) as u8,
            ((x >> 48) & 0xff) as u8 == ((y >> 48) & 0xff) as u8,
            ((x >> 40) & 0xff) as u8 == ((y >> 40) & 0xff) as u8,
            ((x >> 32) & 0xff) as u8 == ((y >> 32) & 0xff) as u8,
            ((x >> 24) & 0xff) as u8 == ((y >> 24) & 0xff) as u8,
            ((x >> 16) & 0xff) as u8 == ((y >> 16) & 0xff) as u8,
            ((x >> 8) & 0xff) as u8 == ((y >> 8) & 0xff) as u8,
            (x & 0xff) as u8 == (y & 0xff) as u8,
    ;
}

pub fn push_u128_be(out: &mut Vec<u8>, x: u128)
    ensures
        final(out)@ == old(out)@ + spec_u128_be(x),
{
    out.push(((x >> 120) & 0xff) as u8);
    out.push(((x >> 112) & 0xff) as u8);
    out.push(((x >> 104) & 0xff) as u8);
    out.push(((x >> 96) & 0xff) as u8);
    out.push(((x >> 88) & 0xff) as u8);
    out.push(((x >> 80) & 0xff) as u8);
    out.push(((x >> 72) & 0xff) as u8);
    out.push(((x >> 64) & 0xff) as u8);
    out.push(((x >> 56) & 0xff) as u8);
    out.push(((x >> 48) & 0xff) as u8);
    out.push(((x >> 40) & 0xff) as u8);
    out.push(((x >> 32) & 0xff) as u8);
    out.push(((x >> 24) & 0xff) as u8);
    out.push(((x >> 16) & 0xff) as u8);
    out.push(((x >> 8) & 0xff) as u8);
    out.push((x & 0xff) as u8);
    assert(out@ =~= old(out)@ + spec_u128_be(x));
}

/// Appends every byte of `src` to `out`.
pub fn push_bytes(out: &mut Vec<u8>, src: &Vec<u8>)
    ensures
        final(out)@ == old(out)@ + src@,
{
    let mut i: usize = 0;
    while i < src.len()
        invariant
            i <= src@.len(),
            out@ == old(out)@ + src@.subrange(0, i as int),
        decreases src@.len() - i,
    {
        out.push(src[i]);
        assert(out@ =~= old(out)@ + src@.subrange(0, i + 1 as int));
        i = i + 1;
    }
    assert(out@ =~= old(out)@ + src@);
}

pub fn push_str_enc(out: &mut Vec<u8>, s: &String)
    ensures
        final(out)@ == old(out)@ + spec_str_enc(s@),
{
    let bytes = s.as_str().as_bytes_vec();
    push_u128_be(out, bytes.len() as u128);
    push_bytes(out, &bytes);
    assert(out@ =~= old(out)@ + spec_str_enc(s@));
}

pub fn push_opt_str_enc(out: &mut Vec<u8>, s: &Option<String>)
    ensures
        final(out)@ == old(out)@ + spec_opt_str_enc(match s {
            Some(t) => Some(t@),
            None => None,
        }),
{
    match s {
        None => {
            out.push(0u8);
            assert(out@ =~= old(out)@ + seq![0u8]);
        },
        Some(t) => {
            out.push(1u8);
            assert(out@ =~= old(out)@ + seq![1u8]);
            push_str_enc(out, t);
            assert(out@ =~= old(out)@ + (seq![1u8] + spec_str_enc(t@)));
        },
    }
}

pub fn push_bytes_enc(out: &mut Vec<u8>, b: &Vec<u8>)
    ensures
        final(out)@ == old(out)@ + spec_bytes_enc(b@),
{
    push_u128_be(out, b.len() as u128);
    push_bytes(out, b);
    assert(out@ =~= old(out)@ + spec_bytes_enc(b@));
}

} // verus!
