//! Linear interpolation on integers.

use vstd::arithmetic::div_mod::{
    lemma_div_is_ordered, lemma_div_multiples_vanish, lemma_div_of0, lemma_div_pos_is_pos,
};
use vstd::arithmetic::mul::{lemma_mul_inequality, lemma_mul_is_commutative, lemma_mul_nonnegative};
use vstd::prelude::*;

verus! {

/// `num / den` rounded toward zero, for a positive `den`.
pub open spec fn toward_zero(num: int, den: int) -> int {
    if num >= 0 {
        num / den
    } else {
        -((-num) / den)
    }
}

/// The point that lies `pos` steps out of `max_pos` on the way from `a` to
/// `b`: `a + (b - a) * pos / max_pos`, the quotient rounded toward zero.
pub open spec fn interp_at(a: int, b: int, pos: int, max_pos: int) -> int {
    a + toward_zero((b - a) * pos, max_pos)
}

/// Between its two ends an interpolated point never leaves them, and it
/// sits on `a` at step 0 and on `b` at step `max_pos`.
pub proof fn lemma_interp_between(a: int, b: int, pos: int, max_pos: int)
    requires
        0 <= pos <= max_pos,
        0 < max_pos,
    ensures
        a <= b ==> a <= interp_at(a, b, pos, max_pos) <= b,
        b <= a ==> b <= interp_at(a, b, pos, max_pos) <= a,
        pos == 0 ==> interp_at(a, b, pos, max_pos) == a,
        pos == max_pos ==> interp_at(a, b, pos, max_pos) == b,
{
    let span = if a <= b { b - a } else { a - b };
    lemma_toward_zero_of_span(a, b, pos, max_pos);
    // 0 <= span * pos / max_pos <= span * max_pos / max_pos == span
    lemma_mul_inequality(pos, max_pos, span);
    lemma_mul_is_commutative(span, pos);
    lemma_mul_is_commutative(span, max_pos);
    lemma_div_is_ordered(span * pos, span * max_pos, max_pos);
    lemma_div_multiples_vanish(span, max_pos);
    if pos == 0 {
        assert(span * pos == 0) by (nonlinear_arith)
            requires
                pos == 0,
        ;
        lemma_div_of0(max_pos);
    }
}

/// On the way up an interpolated point never steps back, on the way down it
/// never steps forward.
pub proof fn lemma_interp_monotone(a: int, b: int, pos: int, later: int, max_pos: int)
    requires
        0 <= pos <= later,
        0 < max_pos,
    ensures
        a <= b ==> interp_at(a, b, pos, max_pos) <= interp_at(a, b, later, max_pos),
        b <= a ==> interp_at(a, b, pos, max_pos) >= interp_at(a, b, later, max_pos),
{
    let span = if a <= b { b - a } else { a - b };
    lemma_toward_zero_of_span(a, b, pos, max_pos);
    lemma_toward_zero_of_span(a, b, later, max_pos);
    lemma_mul_inequality(pos, later, span);
    lemma_mul_is_commutative(span, pos);
    lemma_mul_is_commutative(span, later);
    lemma_div_is_ordered(span * pos, span * later, max_pos);
}

/// The step from `a` toward `b` is the floor of `|b - a| * pos / max_pos`,
/// taken up or down.
proof fn lemma_toward_zero_of_span(a: int, b: int, pos: int, max_pos: int)
    requires
        0 <= pos,
        0 < max_pos,
    ensures
        a <= b ==> toward_zero((b - a) * pos, max_pos) == ((b - a) * pos) / max_pos,
        b <= a ==> toward_zero((b - a) * pos, max_pos) == -(((a - b) * pos) / max_pos),
        a <= b ==> ((b - a) * pos) / max_pos >= 0,
        b <= a ==> ((a - b) * pos) / max_pos >= 0,
{
    let span = if a <= b { b - a } else { a - b };
    lemma_mul_nonnegative(span, pos);
    lemma_div_pos_is_pos(span * pos, max_pos);
    lemma_div_of0(max_pos);
    if a == b {
        assert((b - a) * pos == 0 && (a - b) * pos == 0) by (nonlinear_arith)
            requires
                a == b,
        ;
    } else if b < a {
        assert((b - a) * pos == -((a - b) * pos)) by (nonlinear_arith);
    }
}

/// Linear interpolation on pixel coordinates.
///
/// Integer arithmetic throughout, so that two bars computed from the same
/// boundary agree on it to the pixel. The result must fit the coordinate
/// type; between the ends (`pos <= max_pos`) it always does.
pub fn interp(a: i32, b: i32, pos: u64, max_pos: u64) -> (r: i32)
    requires
        max_pos > 0,
        i32::MIN <= interp_at(a as int, b as int, pos as int, max_pos as int) <= i32::MAX,
    ensures
        r == interp_at(a as int, b as int, pos as int, max_pos as int),
{
    if b >= a {
        let span: u128 = (b as i64 - a as i64) as u128;
        assert(span * pos <= 0xFFFF_FFFF * 0xFFFF_FFFF_FFFF_FFFF) by (nonlinear_arith)
            requires
                0 <= span <= 0xFFFF_FFFF,
                0 <= pos <= 0xFFFF_FFFF_FFFF_FFFF,
        ;
        let step: u128 = span * (pos as u128) / (max_pos as u128);
        assert((b - a) * pos >= 0) by (nonlinear_arith)
            requires
                b >= a,
                pos >= 0,
        ;
        (a as i128 + step as i128) as i32
    } else {
        let span: u128 = (a as i64 - b as i64) as u128;
        assert(span * pos <= 0xFFFF_FFFF * 0xFFFF_FFFF_FFFF_FFFF) by (nonlinear_arith)
            requires
                0 <= span <= 0xFFFF_FFFF,
                0 <= pos <= 0xFFFF_FFFF_FFFF_FFFF,
        ;
        let step: u128 = span * (pos as u128) / (max_pos as u128);
        assert((b - a) * pos == -(span * pos)) by (nonlinear_arith)
            requires
                span == a - b,
        ;
        assert(span * pos >= 0) by (nonlinear_arith)
            requires
                span >= 0,
                pos >= 0,
        ;
        (a as i128 - step as i128) as i32
    }
}

} // verus!
