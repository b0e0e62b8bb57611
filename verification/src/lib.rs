//! Core of a top-down arena combat simulation: fixed-point 2D vector math,
//! per-weapon fire/reload state machines, cone-shaped damage resolution, a
//! population-capped enemy spawner, and frame-rate-independent steering.
//!
//! All lengths are in milliunits (one world unit = 1000), all durations in
//! milliseconds, and all angles in millidegrees, so that every computation is
//! exact integer arithmetic with a verified contract.

pub mod actor;
pub mod sim;
pub mod rng;
pub mod vec2;
pub mod weapon;
