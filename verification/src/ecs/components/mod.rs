//! Components that entities can carry, and the traits around them.

pub mod controllers;
pub mod fsm;
pub mod interactive;
pub mod misc;
pub mod models;
pub mod pathfinding;
pub mod transforms;

use vstd::prelude::*;

verus! {

/// Components that advance with time.
pub trait Tick {
    /// Advance by `delta_time`.
    fn on_tick(&mut self, delta_time: core::time::Duration);
}

/// Marker components, which describe the components an entity with the
/// marker is expected to carry.
pub trait Marker {
    /// The components an entity with this marker is expected to carry.
    fn describe() -> &'static str;
}

} // verus!
