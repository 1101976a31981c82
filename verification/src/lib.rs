//! Texel: an ASCII art and landscape editor, as a verified library.
//!
//! The modules follow the editor's own layout: `common` holds shared
//! vocabulary (errors, actions, modes, input events), `resources` the editor
//! state, command line, palettes and the double buffered terminal model,
//! `texel_types` the sprite/texel/geometry types and their operations.

pub mod common;
pub mod components;
pub mod exporters;
pub mod os;
pub mod resources;
pub mod systems;
pub mod texel_types;
