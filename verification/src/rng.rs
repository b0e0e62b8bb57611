//! The one place the library draws randomness: a uniformly distributed spawn
//! angle for the enemy scheduler.

use vstd::prelude::*;
use crate::vec2::FULL_TURN_MDEG;

verus! {

/// Relies on rand::random for fresh random bits; nothing can be promised of
/// the value itself.
pub assume_specification<T>[ rand::random::<T> ]() -> (r: T)
    where
        rand::distributions::Standard: rand::distributions::Distribution<T>,
;

/// A random angle in `[0, 360_000)` millidegrees. Nothing is promised of
/// which angle comes back; every caller must hold for all of them.
pub fn random_angle_mdeg() -> (r: i64)
    ensures
        0 <= r < FULL_TURN_MDEG,
{
    let bits: u32 = rand::random();
    (bits % 360_000) as i64
}

} // verus!
