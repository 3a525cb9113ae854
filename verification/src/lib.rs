//! Verified core of the gears game engine: configuration, the entity
//! component world with its query-based access bookkeeping, the hierarchical
//! finite state machine, movement decisions, grid helpers for pathfinding,
//! plain component data, the bookkeeping of animation states, transitions and
//! edit history, and named systems.
#![allow(unused_imports)]

pub mod config;
pub mod ecs;
pub mod animation;
pub mod event;
pub mod systems;
