//! Depth/normal prepass pipeline specialization and per-view phase queuing.
//!
//! The crate derives a GPU pipeline configuration from a combinatorial key of
//! mesh, material and view features, memoizes compiled pipeline handles by that
//! key, groups per-frame attachment textures by render target, and queues
//! visible drawables into ordered draw phases. GPU resource creation, asset
//! loading and scene queries are external collaborators: the library works on
//! plain values handed in by the embedding renderer.

pub mod ids;
pub mod error;
pub mod key;
pub mod vertex;
pub mod config;
pub mod material;
pub mod specialize;
pub mod cache;
pub mod phase;
pub mod textures;
pub mod extract;
pub mod bindgroup;
pub mod queue;
pub mod plugin;
