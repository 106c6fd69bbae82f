//! Exact-arithmetic core of an iterative PET image reconstruction: the walk
//! of a line of response through a voxel grid, and the histograms of line
//! geometry that yield a scatter correction.
//!
//! - `units`: lengths, times, fractions, points and lines of response;
//! - `fov`: the box of voxels, and where a line enters and leaves it;
//! - `weights`: the walk of a line through the voxels, with what holds of
//!   every walk, and the place of each chord on its line;
//! - `lorogram`: axes of bins, histograms of lines, and the scattergram;
//! - `io`: the selection of rows of a table, and the raw image file.

pub mod fov;
pub mod io;
pub mod lorogram;
pub mod units;
pub mod weights;

pub use units::{BoxDim, Index, Length, Point, Ratio, Time, VecOf, Vector, LOR};
pub use units::{MAX_LENGTH, MAX_VOXELS};
