//! The editing window: fonts, input and drawing.

pub mod font;
pub mod ime;
pub mod render;
pub mod single_font;
pub mod window;
