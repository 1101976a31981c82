//! Export formats for scenes.

pub mod plaintext;

pub use plaintext::Plaintext;
