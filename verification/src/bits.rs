//! Facts about single bits of a 64-bit board.
use vstd::prelude::*;
use vstd::std_specs::bits::{u64_trailing_zeros, axiom_u64_trailing_zeros};

verus! {

/// Bit `i` of `x` is set (squares outside `0..64` never are).
pub open spec fn has_bit(x: u64, i: int) -> bool {
    0 <= i < 64 && (x >> (i as u64)) & 1 == 1
}

/// The board with the single square `i`.
pub open spec fn single(i: int) -> u64 {
    1u64 << (i as u64)
}

pub proof fn lemma_single_bit(k: int, j: int)
    requires
        0 <= k < 64,
    ensures
        has_bit(single(k), j) == (j == k),
{
    let kk = k as u64;
    if 0 <= j < 64 {
        let jj = j as u64;
        assert(((1u64 << kk) >> jj) & 1 == 1 <==> jj == kk) by (bit_vector)
            requires kk < 64, jj < 64;
    }
}

pub proof fn lemma_zero_bit(j: int)
    ensures
        !has_bit(0, j),
{
    if 0 <= j < 64 {
        let jj = j as u64;
        assert((0u64 >> jj) & 1 == 0) by (bit_vector);
    }
}

pub proof fn lemma_or_bit(x: u64, y: u64, j: int)
    ensures
        has_bit(x | y, j) == (has_bit(x, j) || has_bit(y, j)),
{
    if 0 <= j < 64 {
        let jj = j as u64;
        assert(((x | y) >> jj) & 1 == 1 <==> ((x >> jj) & 1 == 1 || (y >> jj) & 1 == 1)) by (bit_vector);
    }
}

pub proof fn lemma_and_bit(x: u64, y: u64, j: int)
    ensures
        has_bit(x & y, j) == (has_bit(x, j) && has_bit(y, j)),
{
    if 0 <= j < 64 {
        let jj = j as u64;
        assert(((x & y) >> jj) & 1 == 1 <==> ((x >> jj) & 1 == 1 && (y >> jj) & 1 == 1)) by (bit_vector);
    }
}

pub proof fn lemma_xor_bit(x: u64, y: u64, j: int)
    ensures
        has_bit(x ^ y, j) == (has_bit(x, j) != has_bit(y, j)),
{
    if 0 <= j < 64 {
        let jj = j as u64;
        assert(((x ^ y) >> jj) & 1 == 1 <==> ((x >> jj) & 1 == 1) != ((y >> jj) & 1 == 1)) by (bit_vector);
    }
}

pub proof fn lemma_not_bit(x: u64, j: int)
    ensures
        has_bit(!x, j) == (0 <= j < 64 && !has_bit(x, j)),
{
    if 0 <= j < 64 {
        let jj = j as u64;
        assert(((!x) >> jj) & 1 == 1 <==> !((x >> jj) & 1 == 1)) by (bit_vector) requires jj < 64;
    }
}

/// Two boards with the same bits are equal.
pub proof fn lemma_eq_by_bits(x: u64, y: u64)
    requires
        forall|j: int| 0 <= j < 64 ==> has_bit(x, j) == has_bit(y, j),
    ensures
        x == y,
{
    if x != y {
        let d = x ^ y;
        assert(d != 0) by (bit_vector) requires x != y, d == x ^ y;
        axiom_u64_trailing_zeros(d);
        let t = u64_trailing_zeros(d) as u64;
        assert(t < 64);
        assert((d >> t) & 1 == 1);
        lemma_xor_bit(x, y, t as int);
        assert(has_bit(x, t as int) == has_bit(y, t as int));
        assert(false);
    }
}

/// A board is empty exactly when it has no bit set.
pub proof fn lemma_zero_iff_no_bits(x: u64)
    ensures
        x == 0 <==> forall|j: int| 0 <= j < 64 ==> !#[trigger] has_bit(x, j),
{
    if x == 0 {
        assert forall|j: int| 0 <= j < 64 implies !#[trigger] has_bit(x, j) by {
            lemma_zero_bit(j);
        }
    } else {
        axiom_u64_trailing_zeros(x);
        let t = u64_trailing_zeros(x) as u64;
        assert(has_bit(x, t as int));
    }
}

} // verus!
