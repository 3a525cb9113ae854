//! Transform components without numeric payload.

use vstd::prelude::*;

use crate::ecs::world::Component;

verus! {

/// A component that stores how an object is mirrored.
#[derive(Debug, Copy, Clone)]
pub enum Flip {
    Horizontal,
    Vertical,
    Both,
}

impl Component for Flip {

}

} // verus!
