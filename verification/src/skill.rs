//! The skill-point formula.
//!
//! A score earns `round(score / gold_threshold * (league + 1) * 100)` skill
//! points, rounding halves away from zero. The quotient is taken over the
//! exact rationals and the result saturates at the `i32` bounds; a zero gold
//! threshold yields the saturated value of the score's sign.

use vstd::prelude::*;
use crate::game_types::League;

verus! {

pub open spec fn abs_int(a: int) -> int {
    if a < 0 {
        -a
    } else {
        a
    }
}

/// The quotient `a / b` over the rationals, rounded to the nearest integer
/// with halves away from zero. Meaningful only for `b != 0`.
pub open spec fn div_round_half_away(a: int, b: int) -> int
    recommends
        b != 0,
{
    let q = abs_int(a) / abs_int(b);
    let r = abs_int(a) % abs_int(b);
    let mag = q + if 2 * r >= abs_int(b) {
        1int
    } else {
        0int
    };
    if (a < 0) != (b < 0) {
        -mag
    } else {
        mag
    }
}

pub open spec fn clamp_i32(x: int) -> int {
    if x > i32::MAX {
        i32::MAX as int
    } else if x < i32::MIN {
        i32::MIN as int
    } else {
        x
    }
}

/// The skill points earned by a score: the rounded quotient scaled by the
/// league multiplier, saturated to `i32`. A zero threshold saturates in the
/// direction of the score's sign and yields 0 for a zero score.
pub open spec fn sp_spec(score: int, gold_threshold: int, league: League) -> int {
    let mult = (league.spec_num() + 1) * 100;
    if gold_threshold == 0 {
        if score > 0 {
            i32::MAX as int
        } else if score < 0 {
            i32::MIN as int
        } else {
            0
        }
    } else {
        clamp_i32(div_round_half_away(score * mult, gold_threshold))
    }
}

/// The skill-point formula never leaves the `i32` range.
pub proof fn lemma_sp_bounds(score: int, gold_threshold: int, league: League)
    ensures
        i32::MIN <= sp_spec(score, gold_threshold, league) <= i32::MAX,
{
}

/// Computes the skill points a score earns, exactly as `sp_spec` states.
pub fn skill_points(score: i32, gold_threshold: i32, league: League) -> (r: i32)
    ensures
        r as int == sp_spec(score as int, gold_threshold as int, league),
{
    let mult: i64 = (league.to_i16() as i64 + 1) * 100;
    if gold_threshold == 0 {
        if score > 0 {
            i32::MAX
        } else if score < 0 {
            i32::MIN
        } else {
            0
        }
    } else {
        let s64: i64 = score as i64;
        proof {
            assert(-0x80000000i64 * 300 <= s64 * mult <= 0x7fffffffi64 * 300) by (nonlinear_arith)
                requires
                    -0x80000000i64 <= s64 <= 0x7fffffffi64,
                    100 <= mult <= 300,
            ;
        }
        let a: i64 = s64 * mult;
        let b: i64 = gold_threshold as i64;
        let neg: bool = (a < 0) != (b < 0);
        let av: i64 = if a < 0 {
            -a
        } else {
            a
        };
        let bv: i64 = if b < 0 {
            -b
        } else {
            b
        };
        let q: i64 = av / bv;
        let r: i64 = av % bv;
        let mag: i64 = q + if 2 * r >= bv {
            1
        } else {
            0
        };
        let signed: i64 = if neg {
            -mag
        } else {
            mag
        };
        if signed > i32::MAX as i64 {
            i32::MAX
        } else if signed < i32::MIN as i64 {
            i32::MIN
        } else {
            signed as i32
        }
    }
}

} // verus!
