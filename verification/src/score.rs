//! Scores and boosts: 32-bit floating-point numbers, held and judged by their bits.
use crate::error::{unit_result_is, ErrorView, FtIndexError};
use vstd::arithmetic::power2::pow2;
use vstd::prelude::*;

verus! {

/// A 32-bit floating-point number, by its bits.
#[derive(Clone, Copy, Debug, PartialEq, Eq, Structural)]
pub struct Score {
    pub bits: u32,
}

/// The bits of the number one.
pub const ONE_BITS: u32 = 0x3f80_0000;

/// Whether the sign bit is set.
pub open spec fn is_negative(bits: u32) -> bool {
    bits >= 0x8000_0000
}

/// The bits without the sign bit.
pub open spec fn magnitude(bits: u32) -> int {
    if is_negative(bits) {
        bits - 0x8000_0000
    } else {
        bits as int
    }
}

/// Whether the bits are those of a number that is neither infinite nor no number at all.
pub open spec fn is_finite(bits: u32) -> bool {
    magnitude(bits) < 0x7f80_0000
}

/// The value of a number with these bits and no sign, in units of the smallest positive number: a
/// fraction of 23 bits, scaled by the exponent above it and, unless that is zero, behind a leading
/// one.
pub open spec fn unsigned_value(m: int) -> int {
    let exponent = m / 0x80_0000;
    let fraction = m % 0x80_0000;
    if exponent <= 0 {
        fraction
    } else {
        (0x80_0000 + fraction) * pow2((exponent - 1) as nat)
    }
}

/// The value of a finite number, in units of the smallest positive number.
pub open spec fn value(bits: u32) -> int {
    if is_negative(bits) {
        -unsigned_value(magnitude(bits))
    } else {
        unsigned_value(magnitude(bits))
    }
}

/// The number one, in units of the smallest positive number.
pub open spec fn one() -> int {
    pow2(149) as int
}

/// The distance from one to the next number above it, in units of the smallest positive number.
pub open spec fn epsilon() -> int {
    pow2(126) as int
}

/// What is wrong with a boost, if anything: it must be finite and positive.
pub open spec fn boost_problem(boost: Score) -> Option<ErrorView> {
    if is_finite(boost.bits) && value(boost.bits) > 0 {
        None
    } else {
        Some(ErrorView::InvalidBoost(boost.bits))
    }
}

/// What is wrong with a negative boost, if anything: it must be finite and lie between zero and
/// one.
pub open spec fn negative_boost_problem(boost: Score) -> Option<ErrorView> {
    if is_finite(boost.bits) && 0 <= value(boost.bits) <= one() {
        None
    } else {
        Some(ErrorView::InvalidNegativeBoost(boost.bits))
    }
}

/// Whether a boost differs from one by more than the distance from one to the next number.
pub open spec fn differs_from_one(boost: Score) -> bool {
    value(boost.bits) - one() > epsilon() || one() - value(boost.bits) > epsilon()
}

/// A larger pattern of bits without a sign stands for a larger value.
proof fn unsigned_value_grows(a: int, b: int)
    requires
        0 <= a < b,
    ensures
        unsigned_value(a) < unsigned_value(b),
    decreases b - a,
{
    if a + 1 < b {
        unsigned_value_grows(a, b - 1);
        unsigned_value_steps(b - 1);
    } else {
        unsigned_value_steps(a);
    }
}

proof fn unsigned_value_steps(a: int)
    requires
        0 <= a,
    ensures
        unsigned_value(a) < unsigned_value(a + 1),
{
    let e = a / 0x80_0000;
    let f = a % 0x80_0000;
    if f + 1 < 0x80_0000 {
        assert((a + 1) / 0x80_0000 == e);
        assert((a + 1) % 0x80_0000 == f + 1);
        if e > 0 {
            let p = pow2((e - 1) as nat) as int;
            vstd::arithmetic::power2::lemma_pow2_pos((e - 1) as nat);
            assert((0x80_0000 + f) * p < (0x80_0000 + f + 1) * p) by (nonlinear_arith)
                requires
                    p > 0,
            ;
        }
    } else {
        assert((a + 1) / 0x80_0000 == e + 1);
        assert((a + 1) % 0x80_0000 == 0);
        let q = pow2(e as nat) as int;
        vstd::arithmetic::power2::lemma_pow2_pos(e as nat);
        if e > 0 {
            let p = pow2((e - 1) as nat) as int;
            vstd::arithmetic::power2::lemma_pow2_pos((e - 1) as nat);
            vstd::arithmetic::power2::lemma_pow2_unfold(e as nat);
            assert(q == 2 * p);
            assert((0x80_0000 + f) * p < 0x80_0000 * q) by (nonlinear_arith)
                requires
                    p > 0,
                    q == 2 * p,
                    f < 0x80_0000,
            ;
        } else {
            vstd::arithmetic::power2::lemma2_to64();
            assert(q == 1);
        }
    }
}

/// The values close to one.
proof fn values_around_one()
    ensures
        unsigned_value(0) == 0,
        unsigned_value(0x3f80_0000) == one(),
        one() - unsigned_value(0x3f7f_fffd) > epsilon(),
        one() - unsigned_value(0x3f7f_fffe) == epsilon(),
        unsigned_value(0x3f80_0001) - one() == epsilon(),
        unsigned_value(0x3f80_0002) - one() > epsilon(),
        epsilon() > 0,
{
    let p = pow2(125) as int;
    vstd::arithmetic::power2::lemma_pow2_pos(125);
    vstd::arithmetic::power2::lemma_pow2_unfold(126);
    assert(pow2(126) == 2 * p);
    vstd::arithmetic::power2::lemma_pow2_adds(125, 24);
    vstd::arithmetic::power2::lemma2_to64();
    assert(pow2(24) == 0x100_0000);
    assert(one() == p * 0x100_0000);
    assert(unsigned_value(0x3f80_0000) == 0x80_0000 * pow2(126));
    assert(unsigned_value(0x3f80_0001) == 0x80_0001 * pow2(126));
    assert(unsigned_value(0x3f80_0002) == 0x80_0002 * pow2(126));
    assert(unsigned_value(0x3f7f_fffe) == 0xff_fffe * pow2(125));
    assert(unsigned_value(0x3f7f_fffd) == 0xff_fffd * pow2(125));
}

/// Refuses a boost that is not a finite positive number.
pub fn validate_boost(boost: Score) -> (r: Result<(), FtIndexError>)
    ensures
        unit_result_is(r, boost_problem(boost)),
{
    proof {
        values_around_one();
        if 0 < magnitude(boost.bits) {
            unsigned_value_grows(0, magnitude(boost.bits));
        }
    }
    if boost.bits == 0 || boost.bits >= 0x7f80_0000 {
        return Err(FtIndexError::InvalidBoost(boost.bits));
    }
    Ok(())
}

/// Refuses a negative boost that is not a finite number between zero and one.
pub fn validate_negative_boost(negative_boost: Score) -> (r: Result<(), FtIndexError>)
    ensures
        unit_result_is(r, negative_boost_problem(negative_boost)),
{
    proof {
        values_around_one();
        let m = magnitude(negative_boost.bits);
        if 0 < m {
            unsigned_value_grows(0, m);
        }
        if m < 0x3f80_0000 {
            unsigned_value_grows(m, 0x3f80_0000);
        }
        if 0x3f80_0000 < m {
            unsigned_value_grows(0x3f80_0000, m);
        }
    }
    if negative_boost.bits <= ONE_BITS || negative_boost.bits == 0x8000_0000 {
        return Ok(());
    }
    Err(FtIndexError::InvalidNegativeBoost(negative_boost.bits))
}

/// Whether a boost changes a score.
pub fn is_effective(boost: Score) -> (r: bool)
    requires
        boost_problem(boost) is None,
    ensures
        r == differs_from_one(boost),
{
    proof {
        values_around_one();
        let m = magnitude(boost.bits);
        assert(!is_negative(boost.bits)) by {
            if is_negative(boost.bits) && m > 0 {
                unsigned_value_grows(0, m);
            }
        }
        if m < 0x3f7f_fffd {
            unsigned_value_grows(m, 0x3f7f_fffd);
        }
        if m > 0x3f80_0002 {
            unsigned_value_grows(0x3f80_0002, m);
        }
        if 0x3f7f_fffe < m {
            unsigned_value_grows(0x3f7f_fffe, m);
        }
        if m < 0x3f80_0001 {
            unsigned_value_grows(m, 0x3f80_0001);
        }
    }
    boost.bits < 0x3f7f_fffe || boost.bits > 0x3f80_0001
}

/// The factor by which the score of a document is multiplied: the negative boost where the negative
/// query matches the document, one elsewhere.
pub open spec fn demotion(matched_negative: bool, negative_boost: Score) -> Score {
    if matched_negative {
        negative_boost
    } else {
        Score { bits: ONE_BITS }
    }
}

/// The factor by which the score of a document is multiplied.
pub fn demotion_factor(matched_negative: bool, negative_boost: Score) -> (r: Score)
    ensures
        r == demotion(matched_negative, negative_boost),
{
    if matched_negative {
        negative_boost
    } else {
        Score { bits: ONE_BITS }
    }
}

/// Matching the negative query never raises a score: the factor is finite and lies between zero and
/// one, and it is one where the negative query does not match.
pub proof fn demotion_never_raises(matched_negative: bool, negative_boost: Score)
    requires
        negative_boost_problem(negative_boost) is None,
    ensures
        is_finite(demotion(matched_negative, negative_boost).bits),
        0 <= value(demotion(matched_negative, negative_boost).bits) <= one(),
        !matched_negative ==> value(demotion(matched_negative, negative_boost).bits) == one(),
{
    values_around_one();
    vstd::arithmetic::power2::lemma_pow2_pos(149);
}

/// The boosts that are accepted, by their bits: those of the positive numbers, from the smallest up
/// to the largest finite one.
pub proof fn accepted_boosts(boost: Score)
    ensures
        boost_problem(boost) is None <==> 0 < boost.bits < 0x7f80_0000,
        boost_problem(boost) is Some ==> boost_problem(boost) == Some(
            ErrorView::InvalidBoost(boost.bits),
        ),
{
    values_around_one();
    if 0 < magnitude(boost.bits) {
        unsigned_value_grows(0, magnitude(boost.bits));
    }
}

/// The negative boosts that are accepted, by their bits: those of the numbers from zero to one, and
/// the zero with a sign.
pub proof fn accepted_negative_boosts(boost: Score)
    ensures
        negative_boost_problem(boost) is None <==> boost.bits <= 0x3f80_0000 || boost.bits
            == 0x8000_0000,
        negative_boost_problem(boost) is Some ==> negative_boost_problem(boost) == Some(
            ErrorView::InvalidNegativeBoost(boost.bits),
        ),
{
    values_around_one();
    let m = magnitude(boost.bits);
    if 0 < m {
        unsigned_value_grows(0, m);
    }
    if m < 0x3f80_0000 {
        unsigned_value_grows(m, 0x3f80_0000);
    }
    if 0x3f80_0000 < m {
        unsigned_value_grows(0x3f80_0000, m);
    }
}

/// The accepted boosts that change a score, by their bits: all but one itself, the two numbers below
/// it that are closest and the one above it that is closest.
pub proof fn effective_boosts(boost: Score)
    requires
        0 < boost.bits < 0x7f80_0000,
    ensures
        differs_from_one(boost) <==> boost.bits < 0x3f7f_fffe || boost.bits > 0x3f80_0001,
{
    values_around_one();
    let m = magnitude(boost.bits);
    if m < 0x3f7f_fffd {
        unsigned_value_grows(m, 0x3f7f_fffd);
    }
    if m > 0x3f80_0002 {
        unsigned_value_grows(0x3f80_0002, m);
    }
    if 0x3f7f_fffe < m {
        unsigned_value_grows(0x3f7f_fffe, m);
    }
    if m < 0x3f80_0001 {
        unsigned_value_grows(m, 0x3f80_0001);
    }
}

/// A score is multiplied by the negative boost itself where the negative query matches, and by one
/// elsewhere.
pub proof fn demotion_applies_where_negative_matches(negative_boost: Score)
    ensures
        demotion(true, negative_boost) == negative_boost,
        demotion(false, negative_boost).bits == 0x3f80_0000,
{
}

} // verus!
