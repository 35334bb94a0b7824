//! Concrete implementations of the [`crate::manager::PluginManager`] trait:
//! one optimized for a single runtime known at compile time, one routing
//! among several registered runtimes.

pub mod multi;
pub mod single;
