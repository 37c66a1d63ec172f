//! Shared signed fixed-point operations.

use vstd::prelude::*;

use crate::bits::{lemma_shr_i32, lemma_shr_i64};

verus! {

/// `value` limited to the range of a 16-bit sample.
pub open spec fn clamp16(value: int) -> int {
    if value < -0x8000 {
        -0x8000
    } else if value > 0x7fff {
        0x7fff
    } else {
        value
    }
}

/// `value` limited to the range of a 64-bit accumulator.
pub open spec fn clamp64(value: int) -> int {
    if value < i64::MIN {
        i64::MIN as int
    } else if value > i64::MAX {
        i64::MAX as int
    } else {
        value
    }
}

/// The Q15 product of two samples, rounded toward negative infinity.
pub open spec fn q15(left: int, right: int) -> int {
    (left * right) / 0x8000
}

/// The sum of products of `terms`, saturated to 64 bits after every term.
pub open spec fn saturating_dot(terms: Seq<(i16, i16)>) -> int
    decreases terms.len(),
{
    if terms.len() == 0 {
        0
    } else {
        clamp64(saturating_dot(terms.drop_last()) + terms.last().0 * terms.last().1)
    }
}

/// The sum of products of `terms`.
pub open spec fn dot(terms: Seq<(i16, i16)>) -> int
    decreases terms.len(),
{
    if terms.len() == 0 {
        0
    } else {
        dot(terms.drop_last()) + terms.last().0 * terms.last().1
    }
}

pub proof fn lemma_sample_product(left: i16, right: i16)
    ensures
        -0x3fff_8000 <= left * right <= 0x4000_0000,
        -0x8000 <= q15(left as int, right as int) <= 0x8000,
{
    assert(-0x3fff_8000 <= left * right <= 0x4000_0000) by (nonlinear_arith)
        requires
            -0x8000 <= left <= 0x7fff,
            -0x8000 <= right <= 0x7fff,
    ;
}

/// Saturates a signed accumulator to a 16-bit sample.
pub fn clamp_i16(value: i32) -> (result: i16)
    ensures
        result == clamp16(value as int),
        -0x8000 <= value <= 0x7fff ==> result == value,
        value < -0x8000 ==> result == -0x8000,
        value > 0x7fff ==> result == 0x7fff,
{
    if value < -0x8000 {
        i16::MIN
    } else if value > 0x7fff {
        i16::MAX
    } else {
        value as i16
    }
}

/// Saturates a 64-bit accumulator to a 16-bit sample.
pub fn clamp_i64_to_i16(value: i64) -> (result: i16)
    ensures
        result == clamp16(value as int),
        -0x8000 <= value <= 0x7fff ==> result == value,
        value < -0x8000 ==> result == -0x8000,
        value > 0x7fff ==> result == 0x7fff,
{
    if value < -0x8000 {
        i16::MIN
    } else if value > 0x7fff {
        i16::MAX
    } else {
        value as i16
    }
}

/// Multiplies two signed values as Q15 and truncates toward negative infinity.
pub fn multiply_q15(left: i16, right: i16) -> (result: i32)
    ensures
        result == q15(left as int, right as int),
        -0x8000 <= result <= 0x8000,
        0x8000 * result <= left * right < 0x8000 * result + 0x8000,
{
    proof {
        lemma_sample_product(left, right);
        lemma_shr_i32((left * right) as i32);
    }
    (i32::from(left) * i32::from(right)) >> 15
}

/// Adds two accumulators, saturating at the limits of the type.
fn saturating_sum(left: i64, right: i64) -> (result: i64)
    ensures
        result == clamp64(left + right),
{
    match left.checked_add(right) {
        Some(sum) => sum,
        None => if right < 0 {
            i64::MIN
        } else {
            i64::MAX
        },
    }
}

/// Multiplies Q15 pairs, accumulates in 64 bits, and saturates to one sample.
pub fn mac_q15(terms: &[(i16, i16)]) -> (result: i16)
    ensures
        result == clamp16(saturating_dot(terms@) / 0x8000),
        terms@.len() <= 0x1_0000_0000 ==> {
            &&& dot(terms@) < -0x4000_0000 ==> result == -0x8000
            &&& dot(terms@) >= 0x4000_0000 ==> result == 0x7fff
            &&& -0x4000_0000 <= dot(terms@) < 0x4000_0000 ==> 0x8000 * result <= dot(terms@)
                < 0x8000 * result + 0x8000
        },
{
    let mut sum: i64 = 0;
    let mut index: usize = 0;
    while index < terms.len()
        invariant
            index <= terms@.len(),
            sum == saturating_dot(terms@.take(index as int)),
        decreases terms@.len() - index,
    {
        let (left, right) = terms[index];
        proof {
            lemma_sample_product(left, right);
            assert(terms@.take(index as int) =~= terms@.take(index + 1).drop_last());
        }
        sum = saturating_sum(sum, i64::from(left) * i64::from(right));
        index += 1;
    }
    proof {
        assert(terms@.take(index as int) =~= terms@);
        lemma_shr_i64(sum);
        if terms@.len() <= 0x1_0000_0000 {
            law_mac_is_exact(terms@);
        }
    }
    clamp_i64_to_i16(sum >> 15)
}

/// A dot product of at most 2^32 terms never saturates, so accumulation is
/// exact and only the final result is limited.
pub proof fn law_mac_is_exact(terms: Seq<(i16, i16)>)
    requires
        terms.len() <= 0x1_0000_0000,
    ensures
        saturating_dot(terms) == dot(terms),
        -0x4000_0000 * terms.len() <= dot(terms) <= 0x4000_0000 * terms.len(),
    decreases terms.len(),
{
    if terms.len() > 0 {
        law_mac_is_exact(terms.drop_last());
        lemma_sample_product(terms.last().0, terms.last().1);
    }
}

} // verus!
