//! Seaki: typed pipelines, capability policy, sandbox decisions and the wiki
//! source/patch model, with their contracts proved by Verus.

pub mod pipe;
pub mod text;
pub mod clock;
pub mod pipeline;
pub mod hash;
pub mod json;
pub mod policy;
pub mod keyed;
pub mod digraph;
pub mod wiki;
pub mod sandbox;
