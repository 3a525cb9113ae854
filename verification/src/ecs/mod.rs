//! The entity component system: the world, queries over component access and
//! the components themselves.

pub mod access_table;
pub mod query;
pub mod query_system;
pub mod world;
pub mod components;
pub mod intents;
