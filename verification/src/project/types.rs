//! A project root.
use vstd::prelude::*;

use crate::paths::{file_name, file_name_exec};

verus! {

/// A project directory and the marker file that identified it.
#[derive(Debug, Clone)]
pub struct ProjectRoot {
    pub path: String,
    pub name: String,
    pub marker_file: String,
}

/// The name of a project at `path`: its last component, or `unknown`.
pub open spec fn project_name(path: Seq<char>) -> Seq<char> {
    match file_name(path) {
        Some(n) => n,
        None => "unknown"@,
    }
}

impl ProjectRoot {
    /// The project at `path`, named after the directory.
    pub fn new(path: String, marker_file: String) -> (r: Self)
        ensures
            r.path@ == path@,
            r.name@ == project_name(path@),
            r.marker_file@ == marker_file@,
    {
        let name = match file_name_exec(path.as_str()) {
            Some(n) => n,
            None => "unknown".to_owned(),
        };
        ProjectRoot { path, name, marker_file }
    }
}

} // verus!
