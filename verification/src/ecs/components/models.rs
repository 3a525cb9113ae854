//! Where the model of an entity comes from.

use vstd::prelude::*;

use crate::ecs::world::Component;

verus! {

/// A component that stores the source of a model.
#[derive(Debug, Copy, Clone)]
pub enum ModelSource {
    /// A Wavefront .obj file, by its path relative to the resource directory.
    Obj(&'static str),
    /// A glTF file, by its path relative to the resource directory.
    Gltf(&'static str),
}

impl Component for ModelSource {

}

} // verus!
