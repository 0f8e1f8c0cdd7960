//! Renderer-side logic: input conversion, window routing, builder options, offscreen
//! readback layout and painter state.
pub mod application_builder;
pub mod error;
pub mod events;
pub mod painter_state;
pub mod render_harness;
pub mod window_registry;
