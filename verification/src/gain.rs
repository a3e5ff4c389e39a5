//! From the places of an emitter and of two ears to a gain for each ear.
//!
//! A gain is the product of two factors. The balance factor compares the two
//! ears: it is `min(1, ((d_own - d_other) / sep + 1) / 4 + 1/2)`, where
//! `d_own` and `d_other` are the distances from the emitter to the ear and to
//! the other ear and `sep` is the distance between the ears. The falloff
//! factor follows the inverse-square law, `min(1, 1 / d_own^2)`: this is what
//! sound intensity does, at the price of a source that fades quickly in a
//! small scene.

use vstd::prelude::*;
use crate::geometry::{dist_sq, dist_sq_facts, dist_sq_of, floor_sqrt, floor_sqrt_positive, isqrt};

verus! {

/// The gain that leaves a sample as it is.
pub const UNITY: u32 = 65536;

/// The square of the number of coordinate steps in one world unit.
pub const WORLD_UNIT_SQ: u128 = 1_048_576;

/// Whether two points differ.
pub open spec fn distinct(a: [i32; 3], b: [i32; 3]) -> bool {
    a[0] != b[0] || a[1] != b[1] || a[2] != b[2]
}

/// The falloff factor at the squared distance `d_sq`: unity within one world
/// unit, and beyond it the inverse of the squared distance, rounded down.
pub open spec fn falloff_of(d_sq: int) -> int {
    if d_sq <= WORLD_UNIT_SQ {
        UNITY as int
    } else {
        (UNITY * WORLD_UNIT_SQ) / d_sq
    }
}

/// The balance factor of an ear at distance `own` from the emitter, where the
/// other ear is at distance `other` and the ears are `sep` apart:
/// `(3 * sep + own - other) / (4 * sep)`, rounded down, at most unity and
/// never negative.
pub open spec fn balance_of(own: int, other: int, sep: int) -> int {
    if 3 * sep + own < other {
        0
    } else if 3 * sep + own - other >= 4 * sep {
        UNITY as int
    } else {
        ((3 * sep + own - other) * UNITY) / (4 * sep)
    }
}

/// The product of two gains, rounded down.
pub open spec fn scaled(a: int, b: int) -> int {
    (a * b) / (UNITY as int)
}

/// The balance factor of the ear at `own` for an emitter at `emitter`, with
/// the other ear at `other`. Each distance is rounded down.
pub open spec fn balance_at(emitter: [i32; 3], own: [i32; 3], other: [i32; 3]) -> int {
    balance_of(
        floor_sqrt(dist_sq_of(own, emitter)),
        floor_sqrt(dist_sq_of(other, emitter)),
        floor_sqrt(dist_sq_of(own, other)),
    )
}

/// The gain that the ear at `own` is to reach for an emitter at `emitter`,
/// with the other ear at `other`.
pub open spec fn target_of(emitter: [i32; 3], own: [i32; 3], other: [i32; 3]) -> int {
    scaled(balance_at(emitter, own, other), falloff_of(dist_sq_of(own, emitter)))
}

/// The targets of the left and of the right ear, in this order.
pub open spec fn targets_of(emitter: [i32; 3], left_ear: [i32; 3], right_ear: [i32; 3]) -> (int, int) {
    (target_of(emitter, left_ear, right_ear), target_of(emitter, right_ear, left_ear))
}

/// The falloff factor is a gain, and a nearer emitter never has a smaller one.
pub proof fn falloff_facts(near_sq: int, far_sq: int)
    requires
        0 <= near_sq <= far_sq,
    ensures
        0 <= falloff_of(far_sq) <= falloff_of(near_sq) <= UNITY,
{
    let scale = UNITY * WORLD_UNIT_SQ;
    if far_sq > WORLD_UNIT_SQ {
        assert(0 <= scale / far_sq <= 65536) by (nonlinear_arith)
            requires
                scale == 65536 * 1_048_576,
                far_sq > 1_048_576,
        ;
        if near_sq > WORLD_UNIT_SQ {
            assert(scale / far_sq <= scale / near_sq) by (nonlinear_arith)
                requires
                    scale >= 0,
                    0 < near_sq <= far_sq,
            ;
            assert(scale / near_sq <= 65536) by (nonlinear_arith)
                requires
                    scale == 65536 * 1_048_576,
                    near_sq > 1_048_576,
            ;
        }
    }
}

/// The balance factor is a gain, and it grows with the distance to the own
/// ear and shrinks as the distance to the other ear grows.
pub proof fn balance_facts(own: int, other: int, sep: int, own_up: int, other_down: int)
    requires
        0 < sep,
        0 <= own <= own_up,
        0 <= other_down <= other,
    ensures
        0 <= balance_of(own, other, sep) <= balance_of(own_up, other_down, sep) <= UNITY,
{
    let a = 3 * sep + own - other;
    let b = 3 * sep + own_up - other_down;
    let d = 4 * sep;
    if 0 <= a < d {
        assert(0 <= (a * 65536) / d <= 65536) by (nonlinear_arith)
            requires
                0 <= a < d,
        ;
    }
    if 0 <= b < d {
        assert(0 <= (b * 65536) / d <= 65536) by (nonlinear_arith)
            requires
                0 <= b < d,
        ;
    }
    if 0 <= a && b < d {
        assert((a * 65536) / d <= (b * 65536) / d) by (nonlinear_arith)
            requires
                0 <= a <= b,
                0 < d,
        ;
    }
}

/// The product of two gains is a gain, and it grows with each of them.
pub proof fn scaled_facts(a: int, b: int, a_up: int, b_up: int)
    requires
        0 <= a <= a_up <= UNITY,
        0 <= b <= b_up <= UNITY,
    ensures
        0 <= scaled(a, b) <= scaled(a_up, b_up) <= UNITY,
        scaled(a, UNITY as int) == a,
{
    assert(0 <= a * b <= a_up * b_up <= 65536 * 65536) by (nonlinear_arith)
        requires
            0 <= a <= a_up <= 65536,
            0 <= b <= b_up <= 65536,
    ;
}

/// Computes the falloff factor at the squared distance `d_sq`.
pub fn falloff(d_sq: u128) -> (g: u32)
    ensures
        g == falloff_of(d_sq as int),
        g <= UNITY,
{
    proof {
        falloff_facts(d_sq as int, d_sq as int);
    }
    if d_sq <= WORLD_UNIT_SQ {
        UNITY
    } else {
        let scale: u128 = 68_719_476_736;
        (scale / d_sq) as u32
    }
}

/// Computes the balance factor of an ear from its distance to the emitter,
/// the other ear's distance to the emitter, and their distance to each other.
pub fn balance(own: u64, other: u64, sep: u64) -> (g: u32)
    requires
        sep > 0,
    ensures
        g == balance_of(own as int, other as int, sep as int),
        g <= UNITY,
{
    proof {
        balance_facts(own as int, other as int, sep as int, own as int, other as int);
    }
    let reach: u128 = 3 * (sep as u128) + (own as u128);
    let span: u128 = 4 * (sep as u128);
    if reach < other as u128 {
        0
    } else if reach - other as u128 >= span {
        UNITY
    } else {
        let part: u128 = reach - other as u128;
        ((part * 65536) / span) as u32
    }
}

/// Multiplies two gains.
pub fn scale_gain(a: u32, b: u32) -> (g: u32)
    requires
        a <= UNITY,
        b <= UNITY,
    ensures
        g == scaled(a as int, b as int),
        g <= UNITY,
{
    proof {
        scaled_facts(a as int, b as int, a as int, b as int);
    }
    let product: u64 = (a as u64) * (b as u64);
    (product / 65536) as u32
}

/// Computes the gains that the left and the right ear are to reach for an
/// emitter at `emitter`. The ears must be in two places.
pub fn target_gains(emitter: [i32; 3], left_ear: [i32; 3], right_ear: [i32; 3]) -> (g: (u32, u32))
    requires
        distinct(left_ear, right_ear),
    ensures
        (g.0 as int, g.1 as int) == targets_of(emitter, left_ear, right_ear),
        g.0 <= UNITY,
        g.1 <= UNITY,
{
    let left_dist_sq = dist_sq(left_ear, emitter);
    let right_dist_sq = dist_sq(right_ear, emitter);
    let sep_sq = dist_sq(left_ear, right_ear);
    proof {
        dist_sq_facts(left_ear, right_ear);
    }
    let max_diff = isqrt(sep_sq);
    proof {
        floor_sqrt_positive(sep_sq as int, max_diff as int);
    }
    let left_dist = isqrt(left_dist_sq);
    let right_dist = isqrt(right_dist_sq);
    let left_balance = balance(left_dist, right_dist, max_diff);
    let right_balance = balance(right_dist, left_dist, max_diff);
    let left_falloff = falloff(left_dist_sq);
    let right_falloff = falloff(right_dist_sq);
    (scale_gain(left_balance, left_falloff), scale_gain(right_balance, right_falloff))
}

} // verus!
