//! A voxel scene model for a two-pass GPU renderer: chunks of packed colors with dirty
//! tracking of their device mirrors, the raster pass's depth-tested image, smoothed camera
//! input, and the ordering of each frame and resize.
pub mod camera;
pub mod chunk;
pub mod chunks;
pub mod color;
pub mod cursor;
pub mod frame;
pub mod object;
pub mod output;
pub mod terrain;
pub mod smooth_value;
