//! Marching squares: the triangle mesh of the region where a scalar field
//! reaches a threshold.
//!
//! The field is given as a rectangular grid of samples, one per lattice
//! vertex. Each cell of the grid is classified by which of its four corners
//! are inside the contour, and contributes the triangles of one of sixteen
//! templates. The mesh is handed out as four buffers: positions, normals,
//! texture coordinates and triangle indices.
//!
//! All numbers are exact. A sample is a fixed-point number with sixteen
//! fractional bits, the threshold is one half, and every coordinate of the
//! mesh is a quotient of two integers. A renderer divides once per
//! coordinate to get the floats it draws.
//!
//! - [`grid`] holds the samples.
//! - [`cell`] classifies a cell and places its points in the world.
//! - [`template`] is the table of the sixteen cases.
//! - [`mesh`] holds the buffers and appends polygons to them.
//! - [`tessellate`] walks the grid and states what the mesh of a grid is.
//! - [`geometry`] and [`winding`] prove where the vertices lie and which way
//!   the triangles turn.
//! - [`wireframe`] lists the sides of the triangles of a mesh.

pub mod cell;
pub mod geometry;
pub mod grid;
pub mod mesh;
pub mod ratio;
pub mod template;
pub mod tessellate;
pub mod winding;
pub mod wireframe;
