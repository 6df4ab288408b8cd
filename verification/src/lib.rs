//! A discrete-time Proportional-Integral-Derivative (PID) feedback
//! controller over fixed-point values, with verified update semantics.
//!
//! Quantities (gains, setpoints, states, outputs) are fixed-point numbers
//! held in `i64`: a real value `x` is represented by `x * SCALE` units,
//! with `SCALE` units to one. Elapsed time is a [`pid::Interval`] in whole
//! nanoseconds; since `SCALE` equals the number of nanoseconds in a second,
//! an interval's nanosecond count is the fixed-point representation of its
//! length in seconds.

pub mod math;
pub mod pid;
