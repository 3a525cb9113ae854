//! Engine events.

use vstd::prelude::*;

verus! {

/// An event of the engine.
#[derive(Debug)]
pub enum GearsEvent {
    /// A shot from `pos` along `ray`.
    Shoot { pos: [i32; 3], ray: [i32; 3] },
}

} // verus!
