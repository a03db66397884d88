//! Neovim instances and opening files in them.
pub mod client;
pub mod locator;
pub mod types;

pub use client::{NeovimClient, NvrClient, NvrCommandExecutor, NvrError};
pub use locator::{EnvAndSocketLocator, NeovimInstanceLocator, SocketDir};
pub use types::NvimInstance;
