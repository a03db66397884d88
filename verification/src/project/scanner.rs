//! Finding project roots by their marker files.
use vstd::prelude::*;

use super::types::{project_name, ProjectRoot};
use crate::paths::{parent, parent_exec, same_path, same_path_exec};

verus! {

/// The marker files a project root is recognised by, in order of preference.
pub open spec fn default_markers() -> Seq<Seq<char>> {
    seq![
        "Cargo.toml"@,
        "package.json"@,
        "go.mod"@,
        "pyproject.toml"@,
        ".git"@,
        ".obsidian"@,
    ]
}

/// `path` followed by its parent, the parent's parent and so on, at most
/// `fuel` of them.
pub open spec fn ancestors(path: Seq<char>, fuel: nat) -> Seq<Seq<char>>
    decreases fuel,
{
    if fuel == 0 {
        Seq::empty()
    } else {
        seq![path] + match parent(path) {
            Some(p) => ancestors(p, (fuel - 1) as nat),
            None => Seq::empty(),
        }
    }
}

/// The first index below `n` whose flag is set.
pub open spec fn first_set_from(flags: Seq<bool>, n: int, i: int) -> Option<int>
    decreases n - i,
{
    if i < 0 || i >= n {
        None
    } else if flags[i] {
        Some(i)
    } else {
        first_set_from(flags, n, i + 1)
    }
}

/// The lesser of two lengths.
pub open spec fn min_len(a: nat, b: nat) -> int {
    if a < b {
        a as int
    } else {
        b as int
    }
}

/// Finds project roots by looking for marker files.
pub struct FastProjectScanner {
    pub marker_files: Vec<String>,
}

impl FastProjectScanner {
    /// A scanner for the given marker files.
    pub fn new(marker_files: Vec<String>) -> (r: Self)
        ensures
            r.marker_files@ == marker_files@,
    {
        Self { marker_files }
    }

    /// A scanner for `Cargo.toml`, `package.json`, `go.mod`, `pyproject.toml`,
    /// `.git` and `.obsidian`.
    pub fn with_defaults() -> (r: Self)
        ensures
            Seq::new(r.marker_files@.len(), |i: int| r.marker_files@[i]@) == default_markers(),
    {
        let v = vec![
            "Cargo.toml".to_owned(),
            "package.json".to_owned(),
            "go.mod".to_owned(),
            "pyproject.toml".to_owned(),
            ".git".to_owned(),
            ".obsidian".to_owned(),
        ];
        assert(Seq::new(v@.len(), |i: int| v@[i]@) =~= default_markers());
        Self::new(v)
    }

    /// The first marker present in a directory, given for each marker (in the
    /// scanner's order) whether the directory holds it.
    pub fn find_marker_in_directory(&self, present: &Vec<bool>) -> (r: Option<String>)
        ensures
            match first_set_from(present@, min_len(self.marker_files@.len(), present@.len()), 0) {
                Some(i) => r matches Some(m) && m@ == self.marker_files@[i]@,
                None => r is None,
            },
    {
        let n: usize = if self.marker_files.len() < present.len() {
            self.marker_files.len()
        } else {
            present.len()
        };
        let mut i: usize = 0;
        while i < n
            invariant
                i <= n,
                n as int == min_len(self.marker_files@.len(), present@.len()),
                first_set_from(present@, n as int, 0) == first_set_from(present@, n as int, i as int),
            decreases n - i,
        {
            if present[i] {
                return Some(self.marker_files[i].clone());
            }
            i += 1;
        }
        None
    }

    /// The directories from `start_path` up to the root, nearest first (at
    /// most `limit` of them).
    pub fn ancestors_of(start_path: &str, limit: usize) -> (r: Vec<String>)
        ensures
            Seq::new(r@.len(), |i: int| r@[i]@) == ancestors(start_path@, limit as nat),
        decreases limit,
    {
        if limit == 0 {
            let r: Vec<String> = Vec::new();
            assert(Seq::new(r@.len(), |i: int| r@[i]@) =~= ancestors(start_path@, 0));
            return r;
        }
        let mut r: Vec<String> = Vec::new();
        r.push(start_path.to_owned());
        match parent_exec(start_path) {
            Some(p) => {
                let rest = Self::ancestors_of(p.as_str(), limit - 1);
                let ghost head = r@;
                let mut i: usize = 0;
                while i < rest.len()
                    invariant
                        i <= rest@.len(),
                        r@.len() == 1 + i,
                        r@[0]@ == start_path@,
                        forall|k: int| 1 <= k <= i ==> #[trigger] r@[k]@ == rest@[k - 1]@,
                    decreases rest.len() - i,
                {
                    let ghost before = r@;
                    r.push(rest[i].clone());
                    assert forall|k: int| 1 <= k <= i + 1 implies #[trigger] r@[k]@ == rest@[k - 1]@ by {
                        if k <= i {
                            assert(r@[k] == before[k]);
                        }
                    }
                    i += 1;
                }
                let ghost rv = Seq::new(rest@.len(), |i: int| rest@[i]@);
                assert(rv == ancestors(p@, (limit - 1) as nat));
                assert(ancestors(start_path@, limit as nat) == seq![start_path@] + rv);
                assert(Seq::new(r@.len(), |i: int| r@[i]@) =~= seq![start_path@] + rv);
                r
            },
            None => {
                assert(Seq::new(r@.len(), |i: int| r@[i]@) =~= ancestors(start_path@, limit as nat));
                r
            },
        }
    }

    /// Walks up from the first of `dirs` (a directory and its ancestors,
    /// nearest first) to the first one that holds a marker; `present[k][m]`
    /// tells whether `dirs[k]` holds marker `m`.
    pub fn walk_up_to_root(&self, dirs: &Vec<String>, present: &Vec<Vec<bool>>) -> (r: Option<ProjectRoot>)
        ensures
            match first_root_from(present@, self.marker_files@.len(), min_len(dirs@.len(), present@.len()), 0) {
                Some(k) => r matches Some(root) && root.path@ == dirs@[k]@ && root.name@ == project_name(
                    dirs@[k]@,
                ) && root.marker_file@ == self.marker_files@[marker_index(
                    present@[k]@,
                    self.marker_files@.len(),
                )]@,
                None => r is None,
            },
    {
        let n: usize = if dirs.len() < present.len() {
            dirs.len()
        } else {
            present.len()
        };
        let mut k: usize = 0;
        while k < n
            invariant
                k <= n,
                n as int == min_len(dirs@.len(), present@.len()),
                first_root_from(present@, self.marker_files@.len(), n as int, 0) == first_root_from(
                    present@,
                    self.marker_files@.len(),
                    n as int,
                    k as int,
                ),
            decreases n - k,
        {
            if let Some(marker) = self.find_marker_in_directory(&present[k]) {
                let root = ProjectRoot::new(dirs[k].clone(), marker);
                return Some(root);
            }
            k += 1;
        }
        None
    }
}

/// The index of the first marker set among the first `n_markers` flags.
pub open spec fn marker_index(present: Seq<bool>, n_markers: nat) -> int {
    first_set_from(present, min_len(n_markers, present.len()), 0)->0
}

/// The first directory at or after `k` (below `n`) that holds one of the
/// first `n_markers` markers.
pub open spec fn first_root_from(present: Seq<Vec<bool>>, n_markers: nat, n: int, k: int) -> Option<int>
    decreases n - k,
{
    if k < 0 || k >= n {
        None
    } else if first_set_from(present[k]@, min_len(n_markers, present[k]@.len()), 0) is Some {
        Some(k)
    } else {
        first_root_from(present, n_markers, n, k + 1)
    }
}

/// An entry of a directory walk: its path, whether it is a directory, and
/// for each marker (in the scanner's order) whether the directory holds it.
#[derive(Debug, Clone)]
pub struct WalkEntry {
    pub path: String,
    pub is_dir: bool,
    pub present: Vec<bool>,
}

/// Some project already found lies at `path`.
pub open spec fn seen_project(found: Seq<(Seq<char>, int)>, path: Seq<char>) -> bool {
    exists|i: int| 0 <= i < found.len() && same_path((#[trigger] found[i]).0, path)
}

/// The projects a walk finds, as paths with the index of their marker: each
/// directory entry that holds one of the first `n_markers` markers and is not
/// already a found project, in walk order.
pub open spec fn projects_of(entries: Seq<WalkEntry>, n_markers: nat) -> Seq<(Seq<char>, int)>
    decreases entries.len(),
{
    if entries.len() == 0 {
        Seq::empty()
    } else {
        let found = projects_of(entries.drop_last(), n_markers);
        let e = entries.last();
        if e.is_dir && !seen_project(found, e.path@) && first_set_from(
            e.present@,
            min_len(n_markers, e.present@.len()),
            0,
        ) is Some {
            found.push((e.path@, marker_index(e.present@, n_markers)))
        } else {
            found
        }
    }
}

impl FastProjectScanner {
    fn is_seen(found: &Vec<ProjectRoot>, path: &str) -> (r: bool)
        ensures
            r == exists|i: int| 0 <= i < found@.len() && same_path((#[trigger] found@[i]).path@, path@),
    {
        let mut i: usize = 0;
        while i < found.len()
            invariant
                i <= found@.len(),
                forall|j: int| 0 <= j < i ==> !same_path((#[trigger] found@[j]).path@, path@),
            decreases found.len() - i,
        {
            if same_path_exec(found[i].path.as_str(), path) {
                return true;
            }
            i += 1;
        }
        false
    }

    /// The projects among the entries of a directory walk: each directory
    /// that holds a marker, once.
    pub fn projects_among(&self, entries: &Vec<WalkEntry>) -> (r: Vec<ProjectRoot>)
        ensures
            r@.len() == projects_of(entries@, self.marker_files@.len()).len(),
            forall|i: int|
                0 <= i < r@.len() ==> {
                    let p = #[trigger] projects_of(entries@, self.marker_files@.len())[i];
                    &&& r@[i].path@ == p.0
                    &&& r@[i].name@ == project_name(p.0)
                    &&& r@[i].marker_file@ == self.marker_files@[p.1]@
                },
    {
        let ghost nm = self.marker_files@.len();
        let mut found: Vec<ProjectRoot> = Vec::new();
        let mut k: usize = 0;
        while k < entries.len()
            invariant
                k <= entries@.len(),
                nm == self.marker_files@.len(),
                found@.len() == projects_of(entries@.take(k as int), nm).len(),
                forall|i: int|
                    0 <= i < found@.len() ==> {
                        let p = #[trigger] projects_of(entries@.take(k as int), nm)[i];
                        &&& found@[i].path@ == p.0
                        &&& found@[i].name@ == project_name(p.0)
                        &&& found@[i].marker_file@ == self.marker_files@[p.1]@
                    },
            decreases entries.len() - k,
        {
            let ghost before = found@;
            let ghost ps = projects_of(entries@.take(k as int), nm);
            assert(entries@.take(k + 1).drop_last() =~= entries@.take(k as int));
            assert(entries@.take(k + 1).last() == entries@[k as int]);
            let e = &entries[k];
            let seen = Self::is_seen(&found, e.path.as_str());
            assert(seen == seen_project(ps, e.path@)) by {
                if seen {
                    let i = choose|i: int| 0 <= i < found@.len() && same_path((#[trigger] found@[i]).path@, e.path@);
                    assert(same_path(ps[i].0, e.path@));
                }
                if seen_project(ps, e.path@) {
                    let i = choose|i: int| 0 <= i < ps.len() && same_path((#[trigger] ps[i]).0, e.path@);
                    assert(same_path(found@[i].path@, e.path@));
                }
            }
            if e.is_dir && !seen {
                if let Some(marker) = self.find_marker_in_directory(&e.present) {
                    let root = ProjectRoot::new(e.path.clone(), marker);
                    found.push(root);
                    assert forall|i: int| 0 <= i < found@.len() implies {
                        let p = #[trigger] projects_of(entries@.take(k + 1), nm)[i];
                        &&& found@[i].path@ == p.0
                        &&& found@[i].name@ == project_name(p.0)
                        &&& found@[i].marker_file@ == self.marker_files@[p.1]@
                    } by {
                        if i < before.len() {
                            assert(found@[i] == before[i]);
                            assert(projects_of(entries@.take(k + 1), nm)[i] == ps[i]);
                        }
                    }
                }
            }
            k += 1;
        }
        assert(entries@.take(entries@.len() as int) =~= entries@);
        found
    }
}

} // verus!
