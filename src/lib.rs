//! Immediate-mode widgets drawn onto offscreen rasters, composited as
//! textured quads by a 3D renderer.

pub mod geometry;
pub mod raster;
pub mod canvas;
pub mod widgets;
pub mod renderer;
pub mod context;
pub mod shell;
