//! Resolving a request to a file under the project root.
//!
//! Canonicalizing paths reads the file system, so the caller canonicalizes
//! and hands the results in; what is decided from them is here.
use vstd::prelude::*;

use crate::parser::{JumpLinkKind, JumpRequest};
use crate::paths::{
    lemma_join_extends, path_join, path_join_exec, path_starts_with, path_starts_with_exec, path_strip_prefix,
    path_strip_prefix_exec,
};
use crate::project::ProjectRoot;
use crate::text::{has_prefix, has_suffix};

verus! {

/// A request resolved to a file on disk.
#[derive(Debug, Clone, PartialEq, Eq)]
pub struct MaterializedPath {
    pub absolute: String,
    pub relative: Option<String>,
    pub line: Option<u32>,
    pub end_line: Option<u32>,
    pub kind: JumpLinkKind,
    pub revision: Option<String>,
}

/// What canonicalizing gave: the project root, and the path the request
/// points at (`None` where canonicalizing failed).
#[derive(Debug, Clone)]
pub struct ResolvedPaths {
    pub canonical_root: Option<String>,
    pub canonical_target: Option<String>,
}

/// Why a request could not be resolved.
#[derive(Debug, Clone, PartialEq, Eq)]
pub enum MaterializeError {
    /// The path could not be canonicalized (it does not exist, say).
    CanonicalizeFailed { path: String },
    /// A relative or GitHub path resolved outside the project root.
    EscapesRoot { resolved: String, root: String },
}

/// The root to resolve against: its canonical form, or else the path as given.
pub open spec fn root_path_of(root: Seq<char>, canonical_root: Option<String>) -> Seq<char> {
    match canonical_root {
        Some(c) => c@,
        None => root,
    }
}

/// The path to canonicalize for a request: an absolute request's own path,
/// otherwise the request's path joined to the root.
pub open spec fn candidate_of(root_path: Seq<char>, kind: JumpLinkKind, path: Seq<char>) -> Seq<char> {
    match kind {
        JumpLinkKind::Absolute => path,
        _ => path_join(root_path, path),
    }
}

/// The path canonicalized for a request: for a relative or GitHub request,
/// the request's path joined to the root, so that a path that does not start
/// at `/` gives a path that starts with the root and ends with the request's
/// path; for an absolute request, its own path.
pub proof fn law_candidate_joins_root(root_path: Seq<char>, kind: JumpLinkKind, path: Seq<char>)
    ensures
        kind is Absolute ==> candidate_of(root_path, kind, path) == path,
        kind is Relative || kind is Github ==> candidate_of(root_path, kind, path) == path_join(root_path, path),
        (kind is Relative || kind is Github) && !(path.len() > 0 && path[0] == '/') ==> has_prefix(
            candidate_of(root_path, kind, path),
            root_path,
        ) && has_suffix(candidate_of(root_path, kind, path), path),
{
    if !(path.len() > 0 && path[0] == '/') {
        lemma_join_extends(root_path, path);
    }
}

/// Resolves requests to files, keeping relative and GitHub paths inside the
/// project root.
pub trait PathMaterializer {
    fn materialize(&self, root: &ProjectRoot, req: &JumpRequest, resolved: &ResolvedPaths) -> Result<
        MaterializedPath,
        MaterializeError,
    >;
}

/// The materializer for files on the local file system.
#[derive(Default)]
pub struct FilesystemMaterializer;

impl FilesystemMaterializer {
    /// The root to resolve against: its canonical form if there is one.
    pub fn canonical_root(root: &ProjectRoot, canonical_root: &Option<String>) -> (r: String)
        ensures
            r@ == root_path_of(root.path@, *canonical_root),
    {
        match canonical_root {
            Some(c) => c.clone(),
            None => root.path.clone(),
        }
    }

    /// The path that has to be canonicalized for `req`.
    pub fn candidate_path(root: &ProjectRoot, req: &JumpRequest, canonical_root: &Option<String>) -> (r:
        String)
        ensures
            r@ == candidate_of(root_path_of(root.path@, *canonical_root), req.kind, req.path@),
    {
        match req.kind {
            JumpLinkKind::Absolute => req.path.clone(),
            _ => {
                let root_path = Self::canonical_root(root, canonical_root);
                path_join_exec(root_path.as_str(), req.path.as_str())
            },
        }
    }

    /// A canonical path, accepted only when it lies under the root.
    pub fn resolve_under_root(root_path: &str, candidate: &str, canonical: &Option<String>) -> (r: Result<
        String,
        MaterializeError,
    >)
        ensures
            match canonical {
                None => r matches Err(MaterializeError::CanonicalizeFailed { path }) && path@
                    == candidate@,
                Some(c) => if path_starts_with(c@, root_path@) {
                    r matches Ok(a) && a@ == c@
                } else {
                    r matches Err(MaterializeError::EscapesRoot { resolved, root }) && resolved@
                        == c@ && root@ == root_path@
                },
            },
    {
        match canonical {
            None => Err(MaterializeError::CanonicalizeFailed { path: candidate.to_owned() }),
            Some(c) => {
                if !path_starts_with_exec(c.as_str(), root_path) {
                    return Err(
                        MaterializeError::EscapesRoot {
                            resolved: c.clone(),
                            root: root_path.to_owned(),
                        },
                    );
                }
                Ok(c.clone())
            },
        }
    }
}

impl PathMaterializer for FilesystemMaterializer {
    /// Resolves `req`: an absolute path is taken as canonicalized, a relative or
    /// GitHub path must canonicalize to something under the root. The result
    /// keeps the lines, kind and revision of the request, and the path
    /// relative to the root when it lies under it.
    fn materialize(&self, root: &ProjectRoot, req: &JumpRequest, resolved: &ResolvedPaths) -> (r: Result<
        MaterializedPath,
        MaterializeError,
    >)
        ensures
            ({
                let root_path = root_path_of(root.path@, resolved.canonical_root);
                let candidate = candidate_of(root_path, req.kind, req.path@);
                match resolved.canonical_target {
                    None => r matches Err(MaterializeError::CanonicalizeFailed { path }) && path@
                        == candidate,
                    Some(c) => if req.kind != JumpLinkKind::Absolute && !path_starts_with(
                        c@,
                        root_path,
                    ) {
                        r matches Err(MaterializeError::EscapesRoot { resolved, root }) && resolved@
                            == c@ && root@ == root_path
                    } else {
                        r matches Ok(m) && m.absolute@ == c@ && (match m.relative {
                            Some(rel) => path_strip_prefix(c@, root_path) == Some(rel@),
                            None => path_strip_prefix(c@, root_path) is None,
                        }) && m.line == req.line && m.end_line == req.end_line && m.kind
                            == req.kind && m.revision.deep_view() == req.revision.deep_view()
                    },
                }
            }),
    {
        let root_path = Self::canonical_root(root, &resolved.canonical_root);
        let candidate = Self::candidate_path(root, req, &resolved.canonical_root);
        let absolute = match req.kind {
            JumpLinkKind::Absolute => match &resolved.canonical_target {
                Some(c) => c.clone(),
                None => return Err(MaterializeError::CanonicalizeFailed { path: candidate }),
            },
            _ => Self::resolve_under_root(
                root_path.as_str(),
                candidate.as_str(),
                &resolved.canonical_target,
            )?,
        };
        let relative = path_strip_prefix_exec(absolute.as_str(), root_path.as_str());
        let revision = match &req.revision {
            Some(rev) => Some(rev.clone()),
            None => None,
        };
        Ok(MaterializedPath {
            absolute,
            relative,
            line: req.line,
            end_line: req.end_line,
            kind: req.kind,
            revision,
        })
    }
}

} // verus!
