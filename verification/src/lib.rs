//! An adjacency (neighbour) index over the vertices of a triangulated mesh.
//!
//! Given the flattened list of triangle vertex indices that defines a mesh's
//! faces, the [`adjacency::AdjacentStore`] records, for every vertex, the
//! ordered set of other vertices that share a face with it. The store's
//! behaviour is specified against a mathematical model — a map from vertex id
//! to its neighbour sequence — and the structural properties of that model
//! (symmetry, absence of duplicates, idempotence of repeated insertion) are
//! proved in [`laws`].

pub mod adjacency;
pub mod laws;
pub mod small_list;
