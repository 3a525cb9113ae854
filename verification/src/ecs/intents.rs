//! Intents: requests that systems send each other through a channel.

use vstd::prelude::*;

verus! {

/// Represents different types of intents that can be sent.
#[derive(Debug, Clone)]
pub enum Intent {
    /// Player wants to shoot.
    Shoot { entity: u32 },
    /// Entity wants to interact with another entity.
    Interact { source: u32, target: u32 },
    /// Custom intent with string data.
    Custom { name: String, data: Vec<u8> },
}

impl Intent {
    /// A shoot intent for the given entity.
    pub fn shoot(entity: u32) -> (r: Self)
        ensures
            r == (Intent::Shoot { entity }),
    {
        Intent::Shoot { entity }
    }

    /// An interact intent between two entities.
    pub fn interact(source: u32, target: u32) -> (r: Self)
        ensures
            r == (Intent::Interact { source, target }),
    {
        Intent::Interact { source, target }
    }

    /// A custom intent with a name and binary data.
    pub fn custom(name: String, data: Vec<u8>) -> (r: Self)
        ensures
            r == (Intent::Custom { name, data }),
    {
        Intent::Custom { name, data }
    }
}

} // verus!
