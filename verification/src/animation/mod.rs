//! Plain data of the animation system: what is animated, how keyframes are
//! interpolated, how clips loop, the playback states and the blend modes.

use vstd::prelude::*;

pub mod mixer;
pub mod state;
pub mod timeline;

verus! {

/// The target of an animation track (what property is being animated).
#[derive(Debug, Clone, PartialEq, Eq, Hash)]
pub enum AnimationTarget {
    /// Position/translation of the object.
    Translation,
    /// Rotation of the object.
    Rotation,
    /// Scale of the object.
    Scale,
    /// Custom property with string identifier.
    Custom(String),
}

/// Different interpolation modes for animation keyframes.
#[derive(Debug, Clone, Copy, PartialEq)]
pub enum InterpolationMode {
    /// Linear interpolation between keyframes.
    Linear,
    /// Step interpolation (no smoothing).
    Step,
    /// Cubic spline interpolation.
    CubicSpline,
    /// Custom interpolation function.
    Custom,
}

/// Animation loop modes.
#[derive(Debug, Clone, Copy, PartialEq)]
pub enum LoopMode {
    /// Play once and stop.
    Once,
    /// Loop infinitely.
    Repeat,
    /// Loop a specific number of times.
    RepeatCount(u32),
    /// Ping-pong (forward then backward).
    PingPong,
}

/// Animation playback state.
#[derive(Debug, Clone, Copy, PartialEq, Eq, Structural)]
pub enum PlaybackState {
    Playing,
    Paused,
    Stopped,
    Finished,
}

/// Blend modes for combining animations.
#[derive(Debug, Clone, Copy, PartialEq)]
pub enum BlendMode {
    /// Replace lower layer animations completely.
    Override,
    /// Add to lower layer animations.
    Additive,
    /// Multiply with lower layer animations.
    Multiply,
    /// Subtract from lower layer animations.
    Subtract,
    /// Use the maximum value.
    Maximum,
    /// Use the minimum value.
    Minimum,
    /// Screen blend mode.
    Screen,
    /// Overlay blend mode.
    Overlay,
}

} // verus!
