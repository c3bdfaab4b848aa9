//! A character-cell display surface and the text logic that fills it.

pub mod args;
pub mod backend;
pub mod bridge;
pub mod frame;
pub mod grid;
pub mod laws;
pub mod text;
