//! tmux sessions, panes and the processes that run in them.
pub mod invocation;
pub mod process;
pub mod session;

pub use invocation::TmuxInvocation;
pub use process::{extract_tmux_client_pid, find_nvim_child_pid};
pub use session::{
    NvimPaneCandidate, NvimPaneInfo, SessionInfo, SessionInventory, SessionProvisioner,
    TmuxCommandExecutor, TmuxError, TmuxSessionManager,
};
