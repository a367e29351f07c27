//! Unbounded natural numbers carried as little-endian byte strings, with
//! their value given by a spec function. The arithmetic itself is done by
//! the num crate behind trusted wrappers; every wrapper states the value
//! of its result exactly.

use vstd::prelude::*;
use vstd::arithmetic::power::pow;
use num::bigint::BigUint;

verus! {

/// The value of a little-endian byte string: the first byte is the least
/// significant.
pub open spec fn le_value(s: Seq<u8>) -> nat
    decreases s.len(),
{
    if s.len() == 0 {
        0
    } else {
        (s[0] + 256 * le_value(s.drop_first())) as nat
    }
}

/// The value of a big-endian byte string: the first byte is the most
/// significant.
pub open spec fn be_value(s: Seq<u8>) -> nat
    decreases s.len(),
{
    if s.len() == 0 {
        0
    } else {
        (be_value(s.drop_last()) * 256 + s.last()) as nat
    }
}

/// Relies on num::BigUint::from_bytes_le, Mul<u128> and to_bytes_le:
/// base-256 little-endian digits, and exact multiplication.
#[verifier::external_body]
pub fn big_mul(a: &Vec<u8>, k: u128) -> (r: Vec<u8>)
    ensures
        le_value(r@) == le_value(a@) * k,
{
    (BigUint::from_bytes_le(a.as_slice()) * k).to_bytes_le()
}

/// Relies on num::BigUint::from_bytes_le, Div<u128> and to_bytes_le:
/// base-256 little-endian digits, and division truncating toward zero.
#[verifier::external_body]
pub fn big_div(a: &Vec<u8>, k: u128) -> (r: Vec<u8>)
    requires
        k > 0,
    ensures
        le_value(r@) == le_value(a@) / (k as nat),
{
    (BigUint::from_bytes_le(a.as_slice()) / k).to_bytes_le()
}

/// Relies on num::BigUint's PartialOrd: comparison by numeric value.
#[verifier::external_body]
pub fn big_lt(a: &Vec<u8>, b: &Vec<u8>) -> (r: bool)
    ensures
        r == (le_value(a@) < le_value(b@)),
{
    BigUint::from_bytes_le(a.as_slice()) < BigUint::from_bytes_le(b.as_slice())
}

/// The lowercase hex text of a natural number, no leading zeros, a single
/// zero digit for zero.
pub open spec fn spec_hex_nat(v: nat) -> Seq<char>
    decreases v,
{
    if v < 16 {
        seq![crate::crypto::spec_hex_char(v as int)]
    } else {
        spec_hex_nat(v / 16) + seq![crate::crypto::spec_hex_char(v as int % 16)]
    }
}

/// Relies on num::BigUint's LowerHex formatting: lowercase hex digits of
/// the value, without leading zeros, "0" for zero.
#[verifier::external_body]
pub fn big_to_hex(a: &Vec<u8>) -> (r: String)
    ensures
        r@ == spec_hex_nat(le_value(a@)),
{
    format!("{:x}", BigUint::from_bytes_le(a.as_slice()))
}

/// The bytes of `v` in the opposite order.
pub fn rev_bytes(v: &Vec<u8>) -> (r: Vec<u8>)
    ensures
        r@ == v@.reverse(),
{
    let mut r: Vec<u8> = Vec::new();
    let mut i: usize = v.len();
    while i > 0
        invariant
            i <= v@.len(),
            r@.len() == v@.len() - i,
            forall|j: int| 0 <= j < r@.len() ==> r@[j] == v@[v@.len() - 1 - j],
        decreases i,
    {
        i = i - 1;
        r.push(v[i]);
    }
    assert(r@ =~= v@.reverse());
    r
}

/// Reading a byte string big-endian gives the same value as reading its
/// reverse little-endian.
pub proof fn lemma_be_is_le_of_reverse(s: Seq<u8>)
    ensures
        be_value(s) == le_value(s.reverse()),
    decreases s.len(),
{
    if s.len() == 0 {
        assert(s.reverse() =~= Seq::<u8>::empty());
    } else {
        lemma_be_is_le_of_reverse(s.drop_last());
        assert(s.reverse()[0] == s.last());
        assert(s.reverse().drop_first() =~= s.drop_last().reverse());
    }
}

/// The seed of the difficulty schedule.
pub open spec fn spec_initial_target() -> nat {
    (5 * pow(10, 73)) as nat
}

/// The little-endian bytes of the initial target, five times ten to the
/// seventy-third power.
pub fn initial_target() -> (r: Vec<u8>)
    ensures
        le_value(r@) == spec_initial_target(),
{
    let mut t: Vec<u8> = Vec::new();
    t.push(5u8);
    assert(le_value(t@) == 5) by {
        assert(le_value(Seq::<u8>::empty()) == 0);
        assert(t@.drop_first() =~= Seq::<u8>::empty());
        assert(le_value(t@) == (t@[0] + 256 * le_value(t@.drop_first())) as nat);
    }
    assert(5 * pow(10, 0) == 5) by {
        vstd::arithmetic::power::lemma_pow0(10);
    }
    let mut i: usize = 0;
    while i < 73
        invariant
            i <= 73,
            le_value(t@) == 5 * pow(10, i as nat),
        decreases 73 - i,
    {
        let next = big_mul(&t, 10);
        proof {
            vstd::arithmetic::power::lemma_pow1(10);
            vstd::arithmetic::power::lemma_pow_adds(10, i as nat, 1);
            assert(5 * pow(10, i as nat) * 10 == 5 * pow(10, (i + 1) as nat)) by (nonlinear_arith)
                requires
                    pow(10, (i + 1) as nat) == pow(10, i as nat) * pow(10, 1),
                    pow(10, 1) == 10,
            ;
        }
        t = next;
        i = i + 1;
    }
    t
}

/// One retarget step: the previous target scaled by the observed block
/// time over the expected block time, clamped to stay within a factor of
/// four of the previous target. A non-increasing timestamp scales by
/// nothing positive and lands on the lower clamp.
pub open spec fn spec_next_target(t: nat, prev_ts: u128, ts: u128) -> nat {
    if ts <= prev_ts {
        t / 4
    } else {
        let raw = (t * (ts - prev_ts)) as nat / 1000;
        let hi = t * 4;
        let lo = t / 4;
        if raw > hi {
            hi
        } else if raw < lo {
            lo
        } else {
            raw
        }
    }
}

/// One retarget step never moves the target by more than the clamp
/// factor: it stays between a quarter of and four times the previous
/// target.
pub proof fn lemma_next_target_bounds(t: nat, prev_ts: u128, ts: u128)
    ensures
        t / 4 <= spec_next_target(t, prev_ts, ts) <= t * 4,
{
    assert(t / 4 <= t) by (nonlinear_arith);
    assert(t <= t * 4) by (nonlinear_arith);
}

/// Computes one retarget step on little-endian byte values.
pub fn next_target(t: &Vec<u8>, prev_ts: u128, ts: u128) -> (r: Vec<u8>)
    ensures
        le_value(r@) == spec_next_target(le_value(t@), prev_ts, ts),
{
    if ts <= prev_ts {
        big_div(t, 4)
    } else {
        let dt = ts - prev_ts;
        let scaled = big_mul(t, dt);
        let raw = big_div(&scaled, 1000);
        let hi = big_mul(t, 4);
        let lo = big_div(t, 4);
        if big_lt(&hi, &raw) {
            hi
        } else if big_lt(&raw, &lo) {
            lo
        } else {
            raw
        }
    }
}

} // verus!
