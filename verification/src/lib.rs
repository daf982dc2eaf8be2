//! The scene-building stage of a tile-based renderer of vector graphics.
//!
//! A scene of filled paths is cut into tiles of sixteen by sixteen pixels. For each path
//! the tiler finds the tiles that the path covers in full, the tiles that its edges pass
//! through, and the fills that tell the rasterizer how much of such a tile is covered.
//! The scene builder tiles all paths of a scene, gives each stage its alpha tile
//! indices, culls what opaque paths hide, and sends the render commands of the frame to
//! a listener.
//!
//! All positions are integers: subpixels, 256 to a pixel.

pub mod builder;
pub mod built_object;
pub mod error;
pub mod executor;
pub mod font_loader;
pub mod geometry;
pub mod gpu_data;
pub mod options;
pub mod scene;
pub mod stage;
pub mod tile_map;
pub mod tiles;
pub mod ui;
pub mod winding;
pub mod z_buffer;
