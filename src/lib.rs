//! A scene controller for frame-driven applications: it owns one active
//! state, switches states instantly or through a timed crossfade, and tells
//! the host what to render each frame.

pub mod animation;
pub mod lifecycle;
pub mod progress;
pub mod resources;
pub mod states;
pub mod viewport;
