//! Distances along a ray as whole-number keys.
//!
//! The tracer's callers measure distances in IEEE 754 double precision. The
//! search for the closest hit only compares distances, so it works on keys:
//! signed whole numbers that are ordered as the distances are. A double's
//! 64 bits are a sign and a magnitude, and of two doubles that are numbers
//! the smaller is the one whose signed magnitude is smaller; the key of a
//! double is that signed magnitude. Both zeros get the key 0. A NaN gets a
//! key beyond those of the two infinities, so that no range between numbers
//! holds it.

use vstd::prelude::*;

verus! {

/// The sign bit of a 64-bit pattern.
pub const SIGN: u64 = 0x8000_0000_0000_0000;

/// The signed magnitude that a bit pattern stands for: the low 63 bits,
/// taken as negative where the sign bit is set.
pub open spec fn rank(bits: u64) -> int {
    if bits < SIGN {
        bits as int
    } else {
        -(bits - SIGN)
    }
}

/// The bit pattern with the signed magnitude `key`; of the two patterns for
/// 0, the one with the sign bit clear.
pub open spec fn pattern(key: i64) -> u64 {
    if key >= 0 {
        key as u64
    } else {
        (SIGN - key) as u64
    }
}

/// The key of the double with the bit pattern `bits`.
pub fn key_of_bits(bits: u64) -> (key: i64)
    ensures
        key == rank(bits),
        key > i64::MIN,
{
    if bits < SIGN {
        bits as i64
    } else {
        -((bits - SIGN) as i64)
    }
}

/// The bit pattern of the double with the key `key`. Every key but the least
/// `i64` is the key of a pattern; for that one there is none.
pub fn bits_of_key(key: i64) -> (bits: Option<u64>)
    ensures
        bits is Some <==> key > i64::MIN,
        bits matches Some(found) ==> found == pattern(key) && rank(found) == key,
{
    if key >= 0 {
        Some(key as u64)
    } else if key == i64::MIN {
        None
    } else {
        Some(SIGN + ((-key) as u64))
    }
}

/// Keys are ordered as signed magnitudes are: among patterns with the sign
/// bit clear a greater pattern has a greater key, among those with it set a
/// greater pattern has a smaller key, and no key of the second kind is above
/// one of the first.
pub proof fn lemma_rank_order(one: u64, other: u64)
    ensures
        one < SIGN && other < SIGN ==> (rank(one) < rank(other) <==> one < other),
        one >= SIGN && other >= SIGN ==> (rank(one) < rank(other) <==> one > other),
        one >= SIGN && other < SIGN ==> rank(one) <= rank(other),
        rank(one) == rank(other) <==> one == other || (rank(one) == 0 && rank(other) == 0),
{
}

/// A key's pattern has that key, and a pattern's key leads back to the
/// pattern, but for the zero with the sign bit set, which comes back with
/// the bit clear.
pub proof fn lemma_key_round_trip(key: i64, bits: u64)
    requires
        key > i64::MIN,
    ensures
        rank(pattern(key)) == key,
        bits != SIGN ==> pattern(rank(bits) as i64) == bits,
        pattern(rank(SIGN) as i64) == 0,
{
}

} // verus!
