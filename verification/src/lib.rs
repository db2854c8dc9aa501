//! Grids of values addressed by integer lattice coordinates.
//!
//! - [`Grid`] holds a value in every cell of a fixed rectangle.
//! - [`EndlessGrid`] and [`CopyEndlessGrid`] are unbounded; they store the
//!   cells that were set and keep the bounding box of those cells.
//! - [`ExpandingBounds`] is that bounding box, grown one point at a time.
//! - [`PointsIn`] enumerates the lattice points of a rectangle in row-major
//!   order, from either end, for every integer width.
//!
//! Contracts are stated over mathematical models: a point is a pair of
//! integers, a rectangle is a [`Region`], a dense grid is a [`GridModel`] and a
//! sparse grid is a [`SparseModel`].

pub mod coordinate;
pub mod copy_endless_grid;
pub mod endless_grid;
pub mod expanding_bounds;
pub mod geometry;
pub mod grid;
pub mod points_in;
pub mod region;
pub mod sparse_model;

pub use coordinate::Coordinate;
pub use copy_endless_grid::{Cells, CopyEndlessGrid};
pub use endless_grid::EndlessGrid;
pub use expanding_bounds::ExpandingBounds;
pub use geometry::{point2, rect, size2, Point2D, Rect, Size2D, UnknownUnit};
pub use grid::{Grid, GridModel};
pub use points_in::{LatticePoints, PointsIn};
pub use region::Region;
pub use sparse_model::SparseModel;
