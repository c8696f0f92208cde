//! Glyph-atlas construction and the small engine-side data structures
//! around it, with their behaviour stated as contracts.

pub mod glyph;
pub mod atlas;
pub mod text_mesh;
pub mod font;
pub mod input;
pub mod mouse;
pub mod util;
pub mod asset;
pub mod buffer;
pub mod texture;
pub mod window;
pub mod render;
