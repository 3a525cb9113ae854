//! Components for interaction between entities.

use vstd::prelude::*;

use crate::ecs::world::Component;

verus! {

/// A component that tracks shooting intent (set by the input handler).
#[derive(Debug, Clone, Copy, Default)]
pub struct ShootingIntent {
    /// Whether a shoot action should be performed this frame.
    pub should_shoot: bool,
}

impl Component for ShootingIntent {

}

impl ShootingIntent {
    /// Creates a new shooting intent, not shooting.
    pub fn new() -> (r: Self)
        ensures
            !r.should_shoot,
    {
        ShootingIntent { should_shoot: false }
    }

    /// Triggers a shoot action.
    pub fn trigger(&mut self)
        ensures
            final(self).should_shoot,
    {
        self.should_shoot = true;
    }

    /// Resets the shoot action (to be called after handling it).
    pub fn reset(&mut self)
        ensures
            !final(self).should_shoot,
    {
        self.should_shoot = false;
    }

    /// Checks if shooting is intended.
    pub fn is_shooting(&self) -> (r: bool)
        ensures
            r == self.should_shoot,
    {
        self.should_shoot
    }
}

} // verus!
