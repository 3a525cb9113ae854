//! Errors that can occur in systems.

use vstd::prelude::*;

verus! {

/// Errors that can occur in systems.
#[derive(Debug)]
pub enum SystemError {
    /// Missing required component in the ECS.
    MissingComponent(String),
    /// Failed to access a component in the ECS.
    ComponentAccess(String),
    /// Animation related error.
    Animation(String),
    /// Buffer operation error.
    BufferOperation(String),
    /// System execution error.
    Execution(String),
    /// Other unspecified error.
    Other(String),
}

/// Type alias for a result type that can contain a [`SystemError`].
pub type SystemResult<T> = Result<T, SystemError>;

} // verus!
