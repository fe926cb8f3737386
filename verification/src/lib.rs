//! A verified core for a 2D particle simulation over an annulus, indexed by
//! an adaptive quadtree.
//!
//! Coordinates are fixed-point integers: one unit is a thousandth of a world
//! unit. All geometry is therefore exact, which lets the quadtree's
//! partitioning and lookup behaviour be proved rather than tested.

pub mod boundary;
pub mod particle;
pub mod quadtree;
pub mod sim;
