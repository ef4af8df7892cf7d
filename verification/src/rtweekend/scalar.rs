//! Ranks: the integers that stand for binary64 values.
//!
//! A binary64 bit pattern is a sign bit over a 63-bit magnitude; among patterns
//! that are not NaN, a larger magnitude means a larger absolute value. The rank
//! of a pattern is its magnitude with the sign applied. Ranks therefore order as
//! the values do, both zeros share rank 0, and negating a value negates its
//! rank. The patterns of NaN get the ranks beyond the two infinities.

use vstd::prelude::*;

verus! {

/// The weight of the sign bit in a binary64 pattern.
pub const SIGN_BIT: u64 = 0x8000_0000_0000_0000;

/// Rank of positive infinity; the ranks of numbers lie in `[-INFINITY, INFINITY]`.
pub const INFINITY: i64 = 0x7FF0_0000_0000_0000;

/// Rank of 1.
pub const ONE: i64 = 0x3FF0_0000_0000_0000;

/// What `rank_of_bits` computes.
pub open spec fn rank_spec(bits: u64) -> int {
    if bits < SIGN_BIT {
        bits as int
    } else {
        -(bits - SIGN_BIT)
    }
}

/// What `bits_of_rank` computes.
pub open spec fn bits_spec(rank: i64) -> int {
    if rank >= 0 {
        rank as int
    } else {
        SIGN_BIT - rank
    }
}

/// The rank stands for a number, finite or infinite, and not for a NaN.
pub open spec fn is_number(rank: i64) -> bool {
    -INFINITY <= rank <= INFINITY
}

/// The rank of a binary64 bit pattern.
pub fn rank_of_bits(bits: u64) -> (rank: i64)
    ensures
        rank == rank_spec(bits),
        rank > i64::MIN,
{
    if bits < SIGN_BIT {
        bits as i64
    } else {
        let magnitude: u64 = bits - SIGN_BIT;
        -(magnitude as i64)
    }
}

/// The bit pattern of a rank. Rank 0 gives the pattern of positive zero; the one
/// rank that no pattern has, `i64::MIN`, gives the pattern of negative zero.
pub fn bits_of_rank(rank: i64) -> (bits: u64)
    ensures
        rank > i64::MIN ==> bits == bits_spec(rank),
        rank == i64::MIN ==> bits == SIGN_BIT,
{
    if rank >= 0 {
        rank as u64
    } else if rank == i64::MIN {
        SIGN_BIT
    } else {
        let magnitude: i64 = -rank;
        SIGN_BIT + (magnitude as u64)
    }
}

/// The rank of the negated value. `i64::MIN` is the rank of no pattern and
/// stays as it is.
pub open spec fn negate_spec(rank: i64) -> i64 {
    if rank == i64::MIN {
        rank
    } else {
        (-rank) as i64
    }
}

/// The rank of the negated value.
pub fn negate(rank: i64) -> (r: i64)
    ensures
        r == negate_spec(rank),
{
    if rank == i64::MIN {
        rank
    } else {
        -rank
    }
}

/// Coding a rank and decoding it again gives the rank back.
pub proof fn lemma_rank_round_trip(rank: i64)
    requires
        rank > i64::MIN,
    ensures
        0 <= bits_spec(rank) <= u64::MAX,
        rank_spec(bits_spec(rank) as u64) == rank,
{
}

/// Decoding a pattern and coding it again gives the pattern back, except that
/// negative zero comes back as positive zero.
pub proof fn lemma_bits_round_trip(bits: u64)
    ensures
        i64::MIN < rank_spec(bits) <= i64::MAX,
        bits != SIGN_BIT ==> bits_spec(rank_spec(bits) as i64) == bits,
        bits == SIGN_BIT ==> bits_spec(rank_spec(bits) as i64) == 0,
{
}

/// Ranks order as sign and magnitude do: with equal signs by magnitude, and a
/// set sign bit below a clear one unless both patterns are zero.
pub proof fn lemma_rank_order(a: u64, b: u64)
    ensures
        a < SIGN_BIT && b < SIGN_BIT ==> (rank_spec(a) < rank_spec(b) <==> a < b),
        a >= SIGN_BIT && b >= SIGN_BIT ==> (rank_spec(a) < rank_spec(b) <==> a > b),
        a >= SIGN_BIT && b < SIGN_BIT ==> (rank_spec(a) < rank_spec(b) <==> a > SIGN_BIT || b > 0),
        rank_spec(a) == rank_spec(b) <==> a == b || (rank_spec(a) == 0 && rank_spec(b) == 0),
{
}

} // verus!
