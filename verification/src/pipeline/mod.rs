//! Pipeline designer: graphs, compilation, cost and policy estimates, manifest versions.

pub mod compiler;
pub mod cost;
pub mod graph;
pub mod intent;
pub mod policy;
pub mod version;
