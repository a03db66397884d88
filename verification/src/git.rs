//! Git remotes and GitHub permalinks.
pub mod github;
pub mod repo;
pub mod types;

pub use github::GitHubPermalinkGenerator;
pub use repo::{normalize_git_url, Git2Repository};
pub use types::{GitHubLink, LineRange, RepoInfo};
