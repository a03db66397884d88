//! Permalinks, line ranges and what a repository reports.
use vstd::prelude::*;

verus! {

/// A generated permalink together with its markdown form.
#[derive(Debug, Clone)]
pub struct GitHubLink {
    pub url: String,
    pub markdown: String,
    pub relative_path: String,
    pub revision: String,
    pub lines: LineRange,
    pub provider: String,
}

/// A first line and an optional last line, both 1-based.
#[derive(Debug, Clone, Copy, PartialEq, Eq, Structural)]
pub struct LineRange {
    pub start: u32,
    pub end: Option<u32>,
}

/// What a repository tells about itself: its working directory, its remote
/// URL (normalized to https) and the commit that HEAD points to.
#[derive(Debug, Clone)]
pub struct RepoInfo {
    pub root: String,
    pub remote_url: String,
    pub revision: String,
}

} // verus!
