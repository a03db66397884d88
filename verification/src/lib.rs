//! Navigating code references: links, project roots, tmux sessions, Neovim
//! instances, GitHub permalinks and language-server symbols, with their
//! behaviour stated and proved.
pub mod config;
pub mod git;
pub mod hyprland;
pub mod materializer;
pub mod number;
pub mod nvim;
pub mod parser;
pub mod paths;
pub mod project;
pub mod symbol;
pub mod text;
pub mod tmux;

pub use config::{ConfigLoader, JumpConfig, ProjectConfig};
pub use git::{GitHubLink, GitHubPermalinkGenerator, LineRange, RepoInfo};
pub use hyprland::{
    find_largest_kitty, find_largest_kitty_any_workspace, list_kitty_windows, HyprlandWindow,
    Workspace,
};
pub use materializer::{FilesystemMaterializer, MaterializedPath, PathMaterializer};
pub use nvim::{EnvAndSocketLocator, NeovimClient, NeovimInstanceLocator, NvimInstance, NvrClient};
pub use parser::{JumpLinkKind, JumpLinkParser, JumpRequest, LinkParser};
pub use project::{FastProjectScanner, ProjectRoot};
pub use symbol::{
    CopyMarkdownArgs, CursorPosition, DefinitionLocation, DefinitionReply, HoverContents, HoverOutput,
    HoverReply, HoverRequest, RustSymbolExtractor, SymbolExtractor, SymbolInfo,
};
pub use tmux::{
    NvimPaneCandidate, NvimPaneInfo, SessionInfo, SessionInventory, SessionProvisioner,
    TmuxCommandExecutor, TmuxError, TmuxSessionManager,
};
pub mod roundtrip;
