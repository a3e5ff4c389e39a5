//! The gains in force and the ramp that leads them to their targets.
//!
//! A change of place does not change the gains at once: that would be heard
//! as a click. Each update moves them along a ramp of eight steps from where
//! the ramp began to the target of the moment.

use vstd::prelude::*;
use crate::gain::{distinct, target_gains, targets_of, UNITY};

verus! {

/// The number of updates that a ramp takes.
pub const RAMP_STEPS: u8 = 8;

/// The point `step` eighths of the way from `start` to `target`, rounded to
/// the nearest integer, and away from `start` where two are equally near.
pub open spec fn lerp_of(start: int, target: int, step: int) -> int {
    if start <= target {
        start + ((target - start) * step + 4) / 8
    } else {
        start - ((start - target) * step + 4) / 8
    }
}

/// A ramp begins at `start`, ends at `target` and stays between the two.
pub proof fn lerp_facts(start: int, target: int, step: int)
    requires
        0 <= step <= 8,
    ensures
        lerp_of(start, target, 0) == start,
        lerp_of(start, target, 8) == target,
        start <= target ==> start <= lerp_of(start, target, step) <= target,
        target <= start ==> target <= lerp_of(start, target, step) <= start,
{
    let span = if start <= target { target - start } else { start - target };
    assert(0 <= span * step <= span * 8) by (nonlinear_arith)
        requires
            0 <= span,
            0 <= step <= 8,
    ;
    assert(span * 0 == 0);
}

/// Computes the point `step` eighths of the way from `start` to `target`.
pub fn lerp(start: u32, target: u32, step: u8) -> (g: u32)
    requires
        step <= RAMP_STEPS,
    ensures
        g == lerp_of(start as int, target as int, step as int),
{
    proof {
        lerp_facts(start as int, target as int, step as int);
    }
    if start <= target {
        let span: u64 = (target - start) as u64;
        assert(span * step <= span * 8) by (nonlinear_arith)
            requires
                0 <= span,
                0 <= step <= 8,
        ;
        let part: u64 = (span * (step as u64) + 4) / 8;
        start + part as u32
    } else {
        let span: u64 = (start - target) as u64;
        assert(span * step <= span * 8) by (nonlinear_arith)
            requires
                0 <= span,
                0 <= step <= 8,
        ;
        let part: u64 = (span * (step as u64) + 4) / 8;
        start - part as u32
    }
}

/// What a `Spatial` holds, as numbers: how many eighths of the ramp are done,
/// the gains at which the ramp began, and the gains in force.
pub struct Ramp {
    pub step: int,
    pub left_start: int,
    pub right_start: int,
    pub left: int,
    pub right: int,
}

impl Ramp {
    /// Whether the step is one of a ramp and every gain is a gain.
    pub open spec fn wf(self) -> bool {
        &&& 0 <= self.step <= RAMP_STEPS
        &&& 0 <= self.left_start <= UNITY
        &&& 0 <= self.right_start <= UNITY
        &&& 0 <= self.left <= UNITY
        &&& 0 <= self.right <= UNITY
    }

    /// Both channels silent, at the beginning of a ramp that starts from
    /// silence.
    pub open spec fn silent() -> Ramp {
        Ramp { step: 0, left_start: 0, right_start: 0, left: 0, right: 0 }
    }

    /// After one update towards the given targets: the gains in force are
    /// those of the step that was reached before, and the ramp is one step
    /// further, unless it was complete.
    pub open spec fn advanced(self, left_target: int, right_target: int) -> Ramp {
        Ramp {
            step: if self.step < RAMP_STEPS { self.step + 1 } else { RAMP_STEPS as int },
            left_start: self.left_start,
            right_start: self.right_start,
            left: lerp_of(self.left_start, left_target, self.step),
            right: lerp_of(self.right_start, right_target, self.step),
        }
    }

    /// After `count` updates towards the same targets.
    pub open spec fn advanced_by(self, left_target: int, right_target: int, count: nat) -> Ramp
        decreases count,
    {
        if count == 0 {
            self
        } else {
            self.advanced_by(left_target, right_target, (count - 1) as nat).advanced(
                left_target,
                right_target,
            )
        }
    }

    /// After one update for an emitter and two ears at the given places.
    pub open spec fn positioned(self, emitter: [i32; 3], left_ear: [i32; 3], right_ear: [i32; 3]) -> Ramp {
        self.advanced(
            targets_of(emitter, left_ear, right_ear).0,
            targets_of(emitter, left_ear, right_ear).1,
        )
    }

    /// A new ramp that begins at the gains in force.
    pub open spec fn restarted(self) -> Ramp {
        Ramp {
            step: 0,
            left_start: self.left,
            right_start: self.right,
            left: self.left,
            right: self.right,
        }
    }
}

/// The gains of the two channels of a mono emitter in space, and the state of
/// the ramp that smooths their changes.
#[derive(Clone, Copy, Debug)]
pub struct Spatial {
    lerp_position: u8,
    left_start: u32,
    right_start: u32,
    left: u32,
    right: u32,
}

impl View for Spatial {
    type V = Ramp;

    closed spec fn view(&self) -> Ramp {
        Ramp {
            step: self.lerp_position as int,
            left_start: self.left_start as int,
            right_start: self.right_start as int,
            left: self.left as int,
            right: self.right as int,
        }
    }
}

impl Spatial {
    #[verifier::type_invariant]
    spec fn inv(self) -> bool {
        self@.wf()
    }

    /// Begins in silence and makes the first update for the given places.
    /// The ears must be in two places.
    pub fn new(emitter_position: [i32; 3], left_ear: [i32; 3], right_ear: [i32; 3]) -> (ret: Spatial)
        requires
            distinct(left_ear, right_ear),
        ensures
            ret@ == Ramp::silent().positioned(emitter_position, left_ear, right_ear),
            ret@.wf(),
    {
        let mut ret = Spatial {
            lerp_position: 0,
            left_start: 0,
            right_start: 0,
            left: 0,
            right: 0,
        };
        ret.set_positions(emitter_position, left_ear, right_ear);
        ret
    }

    /// Begins a new ramp at the gains in force.
    pub fn reset_lerp(&mut self)
        ensures
            final(self)@ == old(self)@.restarted(),
            final(self)@.wf(),
    {
        proof {
            use_type_invariant(&*self);
        }
        *self = Spatial {
            lerp_position: 0,
            left_start: self.left,
            right_start: self.right,
            left: self.left,
            right: self.right,
        };
    }

    /// Takes the ramp one step towards the given target gains.
    pub fn advance(&mut self, left_target: u32, right_target: u32)
        requires
            left_target <= UNITY,
            right_target <= UNITY,
        ensures
            final(self)@ == old(self)@.advanced(left_target as int, right_target as int),
            final(self)@.wf(),
    {
        proof {
            use_type_invariant(&*self);
            lerp_facts(self.left_start as int, left_target as int, self.lerp_position as int);
            lerp_facts(self.right_start as int, right_target as int, self.lerp_position as int);
        }
        let new_left_vol = lerp(self.left_start, left_target, self.lerp_position);
        let new_right_vol = lerp(self.right_start, right_target, self.lerp_position);
        let next: u8 = if self.lerp_position < RAMP_STEPS {
            self.lerp_position + 1
        } else {
            RAMP_STEPS
        };
        *self = Spatial {
            lerp_position: next,
            left_start: self.left_start,
            right_start: self.right_start,
            left: new_left_vol,
            right: new_right_vol,
        };
    }

    /// Sets the places of the emitter and of the ears: computes the gains to
    /// reach and takes the ramp one step towards them. The ears must be in two
    /// places.
    pub fn set_positions(&mut self, emitter_pos: [i32; 3], left_ear: [i32; 3], right_ear: [i32; 3])
        requires
            distinct(left_ear, right_ear),
        ensures
            final(self)@ == old(self)@.positioned(emitter_pos, left_ear, right_ear),
            final(self)@.wf(),
    {
        let (left_target, right_target) = target_gains(emitter_pos, left_ear, right_ear);
        self.advance(left_target, right_target);
    }

    /// The gain in force on the left channel.
    pub fn left_volume(&self) -> (g: u32)
        ensures
            g == self@.left,
            g <= UNITY,
    {
        proof {
            use_type_invariant(self);
        }
        self.left
    }

    /// The gain in force on the right channel.
    pub fn right_volume(&self) -> (g: u32)
        ensures
            g == self@.right,
            g <= UNITY,
    {
        proof {
            use_type_invariant(self);
        }
        self.right
    }

    /// How many eighths of the ramp are done.
    pub fn lerp_position(&self) -> (step: u8)
        ensures
            step == self@.step,
            step <= RAMP_STEPS,
    {
        proof {
            use_type_invariant(self);
        }
        self.lerp_position
    }
}

} // verus!
