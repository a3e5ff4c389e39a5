//! Stereo gains for a mono emitter placed in three-dimensional space.
//!
//! Everything is computed in fixed point. A coordinate is an `i32` counted in
//! steps of 1/1024 of a world unit, a gain is a `u32` in which 65536 stands
//! for unity, and the progress of a gain ramp is counted in eighths.

pub mod gain;
pub mod geometry;
pub mod laws;
pub mod spatial;

pub use gain::{balance, falloff, scale_gain, target_gains, UNITY};
pub use geometry::{dist_sq, isqrt};
pub use spatial::{lerp, Spatial, RAMP_STEPS};
