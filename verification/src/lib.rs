//! Marching squares on a regular square grid.
//!
//! A scalar field is sampled at the nodes of a grid, every node is
//! classified against an isovalue, every cell gets a topology code from the
//! flags of its four corners, and every code gives the cell its crossings:
//! the edges on which the contour passes, and from which end each crossing
//! is interpolated. All of this is exact: samples are integers of which only
//! the order matters, and node centres are given in whole units. Placing a
//! crossing on its edge in floating point, and writing numbers as text, is
//! left to the caller.
//!
//! - [`cell`]: corners, edges and crossings of a cell
//! - [`topology`]: the sixteen topology codes and their crossings
//! - [`field`]: dense fields of samples, flags, codes and point sequences
//! - [`marching`]: the pipeline from samples to point sequences
//! - [`export`]: the export record
//! - [`laws`], [`record`]: what holds of the pipeline and of the record

pub mod cell;
pub mod export;
pub mod field;
pub mod laws;
pub mod marching;
pub mod record;
pub mod topology;
