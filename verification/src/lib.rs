//! A rotating wireframe icosahedron kernel.
//!
//! The library computes the 12 vertices and 30 edges of a regular
//! icosahedron, rotates the vertices about the vertical axis, and projects
//! them to 2D screen coordinates with a simple perspective divide.  All
//! coordinates, angles and projection parameters are fixed-point values:
//! `i64` counts of millionths of a unit (see [`fixed::FP_ONE`]), so every
//! computation is exact integer arithmetic with a truncating division.  The
//! windowing host evaluates `sin`/`cos` and hands the kernel their
//! fixed-point values.

pub mod fixed;
pub mod geometry;
pub mod transform;
