//! A 2D sprite renderer core: texture identifiers, per-frame draw lists,
//! texture-grouped instance batching and the render coordinator's
//! message-driven state machine.

pub mod batching;
pub mod color;
pub mod commands;
pub mod error;
pub mod geometry;
pub mod render_thread;
pub mod renderer;
pub mod sprite;
pub mod texture_ref;
pub mod textures;
