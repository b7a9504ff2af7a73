//! Verified voxel-grid library: sparse 3D samples held as integer-indexed
//! voxel cells, with validated construction, spatial index queries and a set
//! of pure grid-to-grid transform operators.
//!
//! The verified core performs no floating-point arithmetic: continuous
//! geometry (scaling an index triple by the grid resolution and carrying it
//! across reference frames) is left to callers, which read the resolution
//! bit pattern and the `ecoord` frame-graph handle from the grid.

pub mod aggregate;
pub mod column_ops;
pub mod error;
pub mod explode;
pub mod filter;
pub mod frames;
pub mod translate;
pub mod voxel_data;
pub mod voxel_grid;

pub use error::Error;
pub use voxel_data::{ColumnValues, PayloadColumn, VoxelData};
pub use voxel_grid::{CellIndex, VoxelDataColumnType, VoxelGrid, VoxelGridInfo};
