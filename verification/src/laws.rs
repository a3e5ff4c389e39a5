//! What holds of the gains and of the ramp, whatever the places and targets.

use vstd::prelude::*;
use crate::gain::{
    balance_at, balance_facts, distinct, falloff_facts, falloff_of, scaled_facts, target_of,
    targets_of, UNITY,
};
use crate::geometry::{
    dist_sq_facts, dist_sq_of, floor_sqrt, floor_sqrt_exists, floor_sqrt_monotone,
    floor_sqrt_positive, rounded_triangle,
};
use crate::spatial::{lerp_facts, lerp_of, Ramp};

verus! {

/// The distance of two different points, rounded down, is at least one step.
proof fn separation_is_positive(own: [i32; 3], other: [i32; 3])
    requires
        distinct(own, other),
    ensures
        floor_sqrt(dist_sq_of(own, other)) >= 1,
{
    dist_sq_facts(own, other);
    floor_sqrt_exists(dist_sq_of(own, other));
    floor_sqrt_positive(dist_sq_of(own, other), floor_sqrt(dist_sq_of(own, other)));
}

/// For any emitter and any two ears in different places, the balance factor
/// of an ear is between a quarter and unity.
pub proof fn balance_is_bounded(emitter: [i32; 3], own: [i32; 3], other: [i32; 3])
    requires
        distinct(own, other),
    ensures
        UNITY / 4 <= balance_at(emitter, own, other) <= UNITY,
{
    let d_own = floor_sqrt(dist_sq_of(own, emitter));
    let d_other = floor_sqrt(dist_sq_of(other, emitter));
    let sep = floor_sqrt(dist_sq_of(own, other));
    dist_sq_facts(own, emitter);
    dist_sq_facts(other, emitter);
    dist_sq_facts(other, own);
    dist_sq_facts(own, other);
    floor_sqrt_exists(dist_sq_of(own, emitter));
    floor_sqrt_exists(dist_sq_of(other, emitter));
    floor_sqrt_exists(dist_sq_of(own, other));
    separation_is_positive(own, other);
    rounded_triangle(other, own, emitter, sep, d_own, d_other);
    balance_facts(d_own, d_other, sep, d_own, d_other);
    let part = 3 * sep + d_own - d_other;
    if part < 4 * sep {
        assert((part * 65536) / (4 * sep) >= 16384) by (nonlinear_arith)
            requires
                part >= sep,
                sep >= 1,
        ;
    }
}

/// For any emitter and any two ears in different places, the target of an
/// ear is a gain: it lies between zero and unity.
pub proof fn target_is_gain(emitter: [i32; 3], own: [i32; 3], other: [i32; 3])
    requires
        distinct(own, other),
    ensures
        0 <= target_of(emitter, own, other) <= UNITY,
{
    let d_sq = dist_sq_of(own, emitter);
    let b = balance_at(emitter, own, other);
    balance_is_bounded(emitter, own, other);
    dist_sq_facts(own, emitter);
    falloff_facts(d_sq, d_sq);
    scaled_facts(b, falloff_of(d_sq), b, falloff_of(d_sq));
}

/// With the two ears exchanged, the left ear's target is what the right
/// ear's was, and the right ear's what the left ear's was.
pub proof fn swapped_ears_swap_targets(emitter: [i32; 3], left_ear: [i32; 3], right_ear: [i32; 3])
    ensures
        targets_of(emitter, right_ear, left_ear).0 == targets_of(emitter, left_ear, right_ear).1,
        targets_of(emitter, right_ear, left_ear).1 == targets_of(emitter, left_ear, right_ear).0,
{
}

/// Where the emitter moves from `far` to `near`, so that it is no farther
/// from an ear, and that ear's balance factor is no smaller at `near`, the
/// ear's target is no smaller at `near`. Read from `near` to `far`, this is
/// the other half: an emitter that moves no nearer to an ear, with a balance
/// factor that is no larger, does not raise that ear's target.
pub proof fn nearer_is_no_quieter(far: [i32; 3], near: [i32; 3], own: [i32; 3], other: [i32; 3])
    requires
        distinct(own, other),
        dist_sq_of(own, near) <= dist_sq_of(own, far),
        balance_at(far, own, other) <= balance_at(near, own, other),
    ensures
        target_of(far, own, other) <= target_of(near, own, other),
{
    balance_is_bounded(far, own, other);
    balance_is_bounded(near, own, other);
    dist_sq_facts(own, near);
    dist_sq_facts(own, far);
    falloff_facts(dist_sq_of(own, near), dist_sq_of(own, far));
    scaled_facts(
        balance_at(far, own, other),
        falloff_of(dist_sq_of(own, far)),
        balance_at(near, own, other),
        falloff_of(dist_sq_of(own, near)),
    );
}

/// An emitter that comes no farther from an ear, and no nearer to the other,
/// has a balance factor for that ear that is no larger: the balance alone
/// favours the ear that is farther away.
pub proof fn balance_follows_distances(far: [i32; 3], near: [i32; 3], own: [i32; 3], other: [i32; 3])
    requires
        distinct(own, other),
        dist_sq_of(own, near) <= dist_sq_of(own, far),
        dist_sq_of(other, far) <= dist_sq_of(other, near),
    ensures
        balance_at(near, own, other) <= balance_at(far, own, other),
{
    let own_near = floor_sqrt(dist_sq_of(own, near));
    let own_far = floor_sqrt(dist_sq_of(own, far));
    let other_near = floor_sqrt(dist_sq_of(other, near));
    let other_far = floor_sqrt(dist_sq_of(other, far));
    dist_sq_facts(own, near);
    dist_sq_facts(own, far);
    dist_sq_facts(other, near);
    dist_sq_facts(other, far);
    floor_sqrt_exists(dist_sq_of(own, near));
    floor_sqrt_exists(dist_sq_of(own, far));
    floor_sqrt_exists(dist_sq_of(other, near));
    floor_sqrt_exists(dist_sq_of(other, far));
    floor_sqrt_monotone(dist_sq_of(own, near), dist_sq_of(own, far), own_near, own_far);
    floor_sqrt_monotone(dist_sq_of(other, far), dist_sq_of(other, near), other_far, other_near);
    separation_is_positive(own, other);
    balance_facts(own_near, other_near, floor_sqrt(dist_sq_of(own, other)), own_far, other_far);
}

/// Whether the emitter lies on the line through the ears, beyond the ear at
/// `own` as seen from the ear at `other`: its rounded distance to the other
/// ear is its rounded distance to the own ear and the ears' distance together.
pub open spec fn beyond(emitter: [i32; 3], own: [i32; 3], other: [i32; 3]) -> bool {
    floor_sqrt(dist_sq_of(other, emitter)) == floor_sqrt(dist_sq_of(own, emitter)) + floor_sqrt(
        dist_sq_of(own, other),
    )
}

/// For an emitter beyond an ear, on the line through the ears, that ear's
/// balance factor is a half and the other ear's is unity.
pub proof fn balance_beyond_an_ear(emitter: [i32; 3], own: [i32; 3], other: [i32; 3])
    requires
        distinct(own, other),
        beyond(emitter, own, other),
    ensures
        balance_at(emitter, own, other) == UNITY / 2,
        balance_at(emitter, other, own) == UNITY,
{
    let sep = floor_sqrt(dist_sq_of(own, other));
    separation_is_positive(own, other);
    dist_sq_facts(own, other);
    assert(((2 * sep) * 65536) / (4 * sep) == 32768) by (nonlinear_arith)
        requires
            sep >= 1,
    ;
}

/// Where the emitter stays beyond an ear, on the line through the ears, and
/// moves no farther from that ear, the ear's target does not fall. The other
/// ear's target does not fall either where the emitter comes no farther from
/// it: beyond an ear, to come nearer to it is to come nearer to both.
pub proof fn approach_beyond_an_ear(far: [i32; 3], near: [i32; 3], own: [i32; 3], other: [i32; 3])
    requires
        distinct(own, other),
        beyond(far, own, other),
        beyond(near, own, other),
        dist_sq_of(own, near) <= dist_sq_of(own, far),
    ensures
        target_of(far, own, other) <= target_of(near, own, other),
        dist_sq_of(other, near) <= dist_sq_of(other, far) ==> target_of(far, other, own)
            <= target_of(near, other, own),
{
    balance_beyond_an_ear(far, own, other);
    balance_beyond_an_ear(near, own, other);
    nearer_is_no_quieter(far, near, own, other);
    if dist_sq_of(other, near) <= dist_sq_of(other, far) {
        nearer_is_no_quieter(far, near, other, own);
    }
}

/// What `count` updates towards the same targets leave: the ramp is `count`
/// steps further, or complete; it began where it began before; and the gains
/// in force are those of the step before the last.
pub proof fn advanced_by_facts(s: Ramp, left_target: int, right_target: int, count: nat)
    requires
        s.wf(),
        count >= 1,
    ensures
        ({
            let after = s.advanced_by(left_target, right_target, count);
            let reached = if s.step + count - 1 < 8 { s.step + count - 1 } else { 8 };
            &&& after.step == if s.step + count < 8 { s.step + count } else { 8 }
            &&& after.left_start == s.left_start
            &&& after.right_start == s.right_start
            &&& after.left == lerp_of(s.left_start, left_target, reached)
            &&& after.right == lerp_of(s.right_start, right_target, reached)
        }),
    decreases count,
{
    if count == 1 {
        assert(s.advanced_by(left_target, right_target, 0) == s);
    } else {
        advanced_by_facts(s, left_target, right_target, (count - 1) as nat);
    }
}

/// Eight updates towards the same targets complete a ramp, wherever it
/// stood. If it stood past its beginning, as after `new`, the gains in force
/// are then the targets; from its very beginning the ninth update brings
/// them. Every update after that leaves the ramp complete and the gains at
/// the targets.
pub proof fn ramp_completes(s: Ramp, left_target: int, right_target: int, more: nat)
    requires
        s.wf(),
    ensures
        s.advanced_by(left_target, right_target, 8).step == 8,
        s.step >= 1 ==> s.advanced_by(left_target, right_target, 8).left == left_target,
        s.step >= 1 ==> s.advanced_by(left_target, right_target, 8).right == right_target,
        s.advanced_by(left_target, right_target, 9 + more).step == 8,
        s.advanced_by(left_target, right_target, 9 + more).left == left_target,
        s.advanced_by(left_target, right_target, 9 + more).right == right_target,
{
    advanced_by_facts(s, left_target, right_target, 8);
    advanced_by_facts(s, left_target, right_target, 9 + more);
    lerp_facts(s.left_start, left_target, 8);
    lerp_facts(s.right_start, right_target, 8);
}

/// The update that follows a restart leaves the gains as they were before
/// the restart, whatever its targets: the new ramp begins without a jump.
/// From there the gains go, update by update, along the ramp from the gains
/// before the restart to the targets.
pub proof fn restart_is_continuous(s: Ramp, left_target: int, right_target: int, count: nat)
    requires
        s.wf(),
        count >= 1,
    ensures
        s.restarted().left == s.left,
        s.restarted().right == s.right,
        s.restarted().advanced(left_target, right_target).left == s.left,
        s.restarted().advanced(left_target, right_target).right == s.right,
        s.restarted().advanced_by(left_target, right_target, count).left == lerp_of(
            s.left,
            left_target,
            if count <= 8 { count - 1 } else { 8 },
        ),
        s.restarted().advanced_by(left_target, right_target, count).right == lerp_of(
            s.right,
            right_target,
            if count <= 8 { count - 1 } else { 8 },
        ),
{
    lerp_facts(s.left, left_target, 0);
    lerp_facts(s.right, right_target, 0);
    advanced_by_facts(s.restarted(), left_target, right_target, count);
}

/// The distance between two numbers.
pub open spec fn gap(a: int, b: int) -> int {
    if a <= b {
        b - a
    } else {
        a - b
    }
}

/// Between one point of a ramp and the next, towards a target that may have
/// moved, the gain changes by no more than the target moved, and an eighth of
/// the way from the ramp's start to the earlier target, and one for rounding.
pub proof fn lerp_step_is_bounded(start: int, before: int, after: int, step: int)
    requires
        0 <= step <= 8,
    ensures
        gap(
            lerp_of(start, before, step),
            lerp_of(start, after, if step < 8 { step + 1 } else { 8 }),
        ) <= gap(before, after) + (gap(start, before) + 7) / 8 + 1,
{
    let x = gap(start, before);
    let y = gap(start, after);
    let next = if step < 8 { step + 1 } else { 8 };
    multiple_by_cases(x, step);
    multiple_by_cases(y, next);
}

/// A product with a step of the ramp, written as a sum for each step.
proof fn multiple_by_cases(v: int, step: int)
    requires
        0 <= step <= 8,
    ensures
        step == 0 ==> v * step == 0,
        step == 1 ==> v * step == v,
        step == 2 ==> v * step == v + v,
        step == 3 ==> v * step == v + v + v,
        step == 4 ==> v * step == 4 * v,
        step == 5 ==> v * step == 5 * v,
        step == 6 ==> v * step == 6 * v,
        step == 7 ==> v * step == 7 * v,
        step == 8 ==> v * step == 8 * v,
{
    assert(v * step == step * v) by (nonlinear_arith);
}

/// Between two updates that follow each other, the gain in force on a
/// channel changes by no more than the target moved, and an eighth of unity,
/// and one for rounding: no update jumps to its target.
pub proof fn step_is_bounded(
    s: Ramp,
    left_before: int,
    right_before: int,
    left_after: int,
    right_after: int,
)
    requires
        s.wf(),
        0 <= left_before <= UNITY,
        0 <= right_before <= UNITY,
    ensures
        ({
            let first = s.advanced(left_before, right_before);
            let second = first.advanced(left_after, right_after);
            &&& gap(first.left, second.left) <= gap(left_before, left_after) + UNITY / 8 + 1
            &&& gap(first.right, second.right) <= gap(right_before, right_after) + UNITY / 8 + 1
        }),
{
    lerp_step_is_bounded(s.left_start, left_before, left_after, s.step);
    lerp_step_is_bounded(s.right_start, right_before, right_after, s.step);
}

} // verus!
