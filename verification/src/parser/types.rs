//! Jump requests and their views.
use vstd::prelude::*;

verus! {

/// Where a link points: a GitHub blob, a path relative to the project, or an
/// absolute path.
#[derive(Debug, Clone, Copy, PartialEq, Eq, Structural)]
pub enum JumpLinkKind {
    Github,
    Relative,
    Absolute,
}

/// A parsed link: the file, the lines, and for GitHub links the revision and
/// repository name.
#[derive(Debug, Clone, PartialEq, Eq)]
pub struct JumpRequest {
    pub kind: JumpLinkKind,
    pub path: String,
    pub line: Option<u32>,
    pub end_line: Option<u32>,
    pub revision: Option<String>,
    pub repo_name: Option<String>,
}

/// The mathematical content of a [`JumpRequest`].
#[verifier::ext_equal]
pub struct JumpRequestView {
    pub kind: JumpLinkKind,
    pub path: Seq<char>,
    pub line: Option<u32>,
    pub end_line: Option<u32>,
    pub revision: Option<Seq<char>>,
    pub repo_name: Option<Seq<char>>,
}

impl View for JumpRequest {
    type V = JumpRequestView;

    open spec fn view(&self) -> JumpRequestView {
        JumpRequestView {
            kind: self.kind,
            path: self.path@,
            line: self.line,
            end_line: self.end_line,
            revision: self.revision.deep_view(),
            repo_name: self.repo_name.deep_view(),
        }
    }
}

} // verus!
