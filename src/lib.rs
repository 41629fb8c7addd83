//! Headless spectrogram core: intensity grids, palette, renderer, legend and overlay.

pub mod analysis;
pub mod api;
pub mod audio;
pub mod color;
pub mod image;
pub mod label;
pub mod legend;
pub mod overlay;
pub mod render;
