//! Scene composition core: the discrete half of a headless 2D renderer.
//!
//! Everything here works on integers, bytes and strings and is verified.
//! Rasterisation and layout arithmetic on real numbers live outside.

pub mod blend;
pub mod color;
pub mod compositor;
pub mod engine;
pub mod glyphs;
pub mod hardware;
pub mod mask;
pub mod nesting;
pub mod order;
pub mod raster;
pub mod scene;
pub mod store;
pub mod style;
pub mod text;
pub mod strings;
