//! The configuration of the tool.
use vstd::prelude::*;

use crate::paths::{path_join, path_join_exec};

verus! {

/// The configuration: known projects, the marker files of a project root, how
/// deep to search, and where.
#[derive(Debug, Clone)]
pub struct JumpConfig {
    pub projects: Vec<ProjectConfig>,
    pub marker_files: Vec<String>,
    pub max_depth: usize,
    pub search_paths: Vec<String>,
}

/// A project named in the configuration.
#[derive(Debug, Clone)]
pub struct ProjectConfig {
    pub name: String,
    pub path: String,
    pub lsp_server: Option<String>,
}

/// The user's home directory, as `dirs::home_dir` finds it (from `$HOME` or
/// the password database); it depends on the environment, so nothing is
/// stated of it.
#[verifier::external_body]
pub(crate) fn home_dir() -> Option<String> {
    dirs::home_dir().map(|p| p.to_string_lossy().into_owned())
}

/// The user's configuration directory, as `dirs::config_dir` finds it (from
/// `$XDG_CONFIG_HOME` or the home directory); it depends on the environment,
/// so nothing is stated of it.
#[verifier::external_body]
pub(crate) fn config_dir() -> Option<String> {
    dirs::config_dir().map(|p| p.to_string_lossy().into_owned())
}

/// The default marker files.
pub open spec fn default_marker_names() -> Seq<Seq<char>> {
    seq!["Cargo.toml"@, "package.json"@, "go.mod"@, "pyproject.toml"@, ".git"@]
}

/// The default search paths for a home directory: `<home>/programming`, or
/// none without a home.
pub open spec fn default_search_paths_for(home: Option<Seq<char>>) -> Seq<Seq<char>> {
    match home {
        Some(h) => seq![path_join(h, "programming"@)],
        None => Seq::empty(),
    }
}

/// The views of a sequence of strings.
pub open spec fn string_views(v: Seq<String>) -> Seq<Seq<char>> {
    Seq::new(v.len(), |i: int| v[i]@)
}

/// The default configuration for a home directory.
pub open spec fn is_default_config(c: JumpConfig, home: Option<Seq<char>>) -> bool {
    &&& c.projects@.len() == 0
    &&& string_views(c.marker_files@) == default_marker_names()
    &&& c.max_depth == 5
    &&& string_views(c.search_paths@) == default_search_paths_for(home)
}

/// `Cargo.toml`, `package.json`, `go.mod`, `pyproject.toml` and `.git`.
pub fn default_marker_files() -> (r: Vec<String>)
    ensures
        string_views(r@) == default_marker_names(),
{
    let r = vec![
        "Cargo.toml".to_owned(),
        "package.json".to_owned(),
        "go.mod".to_owned(),
        "pyproject.toml".to_owned(),
        ".git".to_owned(),
    ];
    assert(string_views(r@) =~= default_marker_names());
    r
}

/// The default search depth.
pub fn default_max_depth() -> (r: usize)
    ensures
        r == 5,
{
    5
}

/// The default search paths for a home directory.
pub fn default_search_paths_from(home: Option<String>) -> (r: Vec<String>)
    ensures
        string_views(r@) == default_search_paths_for(home.deep_view()),
{
    match home {
        Some(h) => {
            let r = vec![path_join_exec(h.as_str(), "programming")];
            assert(string_views(r@) =~= default_search_paths_for(home.deep_view()));
            r
        },
        None => {
            let r: Vec<String> = Vec::new();
            assert(string_views(r@) =~= default_search_paths_for(home.deep_view()));
            r
        },
    }
}

/// `<home>/programming` for the user's home directory, if there is one.
pub fn default_search_paths() -> (r: Vec<String>)
    ensures
        exists|home: Option<Seq<char>>| string_views(r@) == #[trigger] default_search_paths_for(home),
{
    let home = home_dir();
    default_search_paths_from(home)
}

impl JumpConfig {
    /// The default configuration for a given home directory.
    pub fn default_for_home(home: Option<String>) -> (r: Self)
        ensures
            is_default_config(r, home.deep_view()),
    {
        let r = JumpConfig {
            projects: Vec::new(),
            marker_files: default_marker_files(),
            max_depth: default_max_depth(),
            search_paths: default_search_paths_from(home),
        };
        r
    }
}

impl Default for JumpConfig {
    /// No projects, the default markers, depth 5, and `<home>/programming`.
    fn default() -> (r: Self)
        ensures
            exists|home: Option<Seq<char>>| #[trigger] is_default_config(r, home),
    {
        let home = home_dir();
        let r = Self::default_for_home(home);
        assert(is_default_config(r, home.deep_view()));
        r
    }
}

} // verus!
