//! Link text and the requests it stands for.
pub mod link;
pub mod types;

pub use link::{JumpLinkParser, LinkParser};
pub use types::{JumpLinkKind, JumpRequest, JumpRequestView};
