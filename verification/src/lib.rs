//! A verified per-sample linear gain ramp controller for digital audio.
//!
//! Gains and samples are exact rational numbers, so the linear
//! interpolation a ramp performs is stated and proved exactly, with no
//! rounding tolerance. The controller transitions the applied gain from
//! its current value to a target over a fixed number of samples and
//! snaps to the target on the final sample.

pub mod gain_control;
pub mod laws;
pub mod rational;
