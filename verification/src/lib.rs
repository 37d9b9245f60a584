//! Planar flight dynamics for controllable vessels, with a predictive chase
//! camera.
//!
//! The crate simulates yaw-axis flight: a velocity integrator turns discrete
//! movement commands into velocity changes and applies passive angular
//! damping, a trajectory integrator moves each vessel along a straight line or
//! a constant-radius arc, and a camera predictor places a chase camera by
//! blending a straight-ahead focus point with one swept along the predicted
//! turn circle.
//!
//! All quantities are exact rational numbers (`rational::Rat`), so every
//! update is a pure, reproducible function of its inputs and the integrators'
//! guarantees are stated and proved as contracts over the rational model.

pub mod camera;
pub mod movements;
pub mod rational;
pub mod rotation;
pub mod vec3;
pub mod vessels;
