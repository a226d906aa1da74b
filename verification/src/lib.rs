//! Core logic of a tilt-driven LED dot-matrix cursor.
//!
//! An inertial sensor is fused into per-axis tilt samples, a motion
//! controller moves a single lit cell over an 8x8 grid, and a display
//! controller keeps the device's row registers in step with the logical
//! pixel state, redrawing only when something changed.  Everything that
//! decides or computes lives here, verified; bus transactions, timers and
//! task scheduling stay outside in the (unverified) application shell.

pub mod global_config;
pub mod logic;
pub mod max7219;
pub mod mpu6050;
