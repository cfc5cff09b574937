//! The core of a character-grid renderer for 3-D scenes:
//!
//! - `style`: display styles and the ANSI escape sequences that select them;
//! - `raster`: the integer Bresenham walk that line rasterization steps by;
//! - `depth`: depth ranks, integers that order visibility as depths do;
//! - `frame`: the frame-stamped depth buffer that resolves nearest-wins
//!   visibility per cell and serializes the grid to a character stream;
//! - `world`: the id-keyed container of scene objects;
//! - `layout`: the framed text layout of a 3x3 matrix.

pub mod style;
pub mod raster;
pub mod depth;
pub mod frame;
pub mod world;
pub mod layout;
