//! Name-based file search over mounted volumes: entry classification,
//! pruned traversal of directory listings, result aggregation and the
//! volume-level facade, each with a machine-checked contract.

pub mod text;
pub mod classifier;
pub mod walker;
pub mod volumes;
pub mod orchestrator;
pub mod engine;
