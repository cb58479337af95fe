//! A navigation-mesh library over a triangulated walkable surface.
//!
//! The mesh is built once from vertices and triangles; afterwards it
//! answers two queries: snap a point onto the surface, and find the
//! shortest walkable path between two points, with cost-weighted search
//! and pluggable edge filtering.
//!
//! Geometry is carried in a fixed-point scalar (`scalar`), so every
//! computation is exact integer arithmetic with stated rounding, and the
//! contracts pin each result down: `vec3` holds the vector primitives,
//! `spatial` the per-triangle records and closest-point classification,
//! `mesh` the build, the queries and the path arithmetic, `graph` the
//! corridor search, and `refine` the two corridor-to-polyline
//! refinements.

pub mod scalar;
pub mod vec3;
pub mod spatial;
pub mod mesh;
pub mod graph;
pub mod refine;

pub use mesh::{NavMesh, NavError, NavResult, NavConnection, NavTriConnection, NavQuery,
    NavPathMode};
pub use spatial::{NavTriangle, NavArea, NavSpatialObject};
pub use vec3::NavVec3;
pub use scalar::{FX_ONE, FX_HALF, ZERO_TRESHOLD, SCALAR_MAX};
