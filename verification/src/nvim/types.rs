//! A running Neovim instance.
use vstd::prelude::*;

verus! {

/// A running Neovim instance: its RPC socket and where it was found.
#[derive(Debug, Clone, PartialEq, Eq)]
pub struct NvimInstance {
    pub address: String,
    pub session_name: Option<String>,
    pub cwd: Option<String>,
}

} // verus!
