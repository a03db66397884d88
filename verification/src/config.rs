//! The configuration and the choice of where it comes from.
pub mod loader;
pub mod types;

pub use loader::ConfigLoader;
pub use types::{JumpConfig, ProjectConfig};
