//! What the readers of tables of lines of response decide once a table is
//! in memory, and the layout of the raw image file.

pub mod hdf5;
pub mod raw;
