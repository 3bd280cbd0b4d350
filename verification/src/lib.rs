//! The surface of a procedurally generated planet, as far as it can be
//! counted: which patches of the cube-projected sphere surround a viewpoint,
//! how the vertices of a patch are joined into triangles, and what the
//! texture that shows the patch grid looks like.
//!
//! * [`cubemap`] addresses the patches and steps from a patch to its
//!   neighbours, across cube edges and corners too.
//! * [`chunks`] collects the patches within a number of steps of a patch.
//! * [`mesh`] lays out the vertex grid of a patch and triangulates it.
//! * [`texture`] computes the grid texture pixel by pixel.
//! * [`terrain`] holds the sizes that the sampling of elevations goes by.
//! * [`utils`] puts these together for the renderer.
//! * [`world`] holds the parts of the physics simulation.
//!
//! Elevations, directions and vertex positions are floating-point values and
//! are computed by the caller.

pub mod chunks;
pub mod cubemap;
pub mod error;
pub mod mesh;
pub mod terrain;
pub mod texture;
pub mod utils;
pub mod world;
