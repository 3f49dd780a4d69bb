//! A two-dimensional spatial container addressed by integer coordinates.
//!
//! The crate pairs an integer 2D vector type ([`IVec2`], an implementation of
//! the [`Vector`] trait) with a fixed-size, dense, row-major grid of cells
//! ([`Grid`], holding [`GridItem`] values). The vector type supplies the
//! arithmetic used for addressing and neighbor computation; the grid supplies
//! construction, fill, positional lookup and mutation, and orthogonal and
//! diagonal adjacency queries.

pub mod grid;
pub mod vector;

pub use grid::Grid;
pub use grid::GridItem;
pub use vector::IVec2;
pub use vector::Vector;
