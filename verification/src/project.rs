//! Project roots and how they are found.
pub mod scanner;
pub mod types;

pub use scanner::{FastProjectScanner, WalkEntry};
pub use types::ProjectRoot;
