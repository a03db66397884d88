//! Finding the Neovim instance of a session.
use vstd::prelude::*;

use super::types::NvimInstance;
use crate::paths::{file_name, file_name_exec, path_join, path_join_exec};
use crate::project::ProjectRoot;
use crate::text::{chars_of, contains, contains_exec, has_prefix, starts_with};
use crate::tmux::SessionInfo;

verus! {

/// A directory whose name starts with `nvim`, and whether it holds a socket
/// named `0`.
#[derive(Debug, Clone)]
pub struct SocketDir {
    pub dir: String,
    pub has_socket: bool,
}

/// Finds a Neovim instance for a session.
pub trait NeovimInstanceLocator {
    fn locate(
        &self,
        session: &SessionInfo,
        root: &ProjectRoot,
        env_address: Option<String>,
        socket_dirs: &Vec<SocketDir>,
    ) -> Option<NvimInstance>;
}

/// The directory at index `i` or later that has a socket and whose path
/// mentions the session or project name.
pub open spec fn matching_from(dirs: Seq<SocketDir>, session: Seq<char>, project: Seq<char>, i: int) -> Option<int>
    decreases dirs.len() - i,
{
    if i < 0 || i >= dirs.len() {
        None
    } else if dirs[i].has_socket && (contains(dirs[i].dir@, session) || contains(dirs[i].dir@, project)) {
        Some(i)
    } else {
        matching_from(dirs, session, project, i + 1)
    }
}

/// The directory at index `i` or later that has a socket.
pub open spec fn with_socket_from(dirs: Seq<SocketDir>, i: int) -> Option<int>
    decreases dirs.len() - i,
{
    if i < 0 || i >= dirs.len() {
        None
    } else if dirs[i].has_socket {
        Some(i)
    } else {
        with_socket_from(dirs, i + 1)
    }
}

/// The socket chosen among the directories: the first that mentions the
/// session or project name, else the first that has a socket.
pub open spec fn chosen_socket(dirs: Seq<SocketDir>, session: Seq<char>, project: Seq<char>) -> Option<Seq<char>> {
    match matching_from(dirs, session, project, 0) {
        Some(i) => Some(path_join(dirs[i].dir@, "0"@)),
        None => match with_socket_from(dirs, 0) {
            Some(i) => Some(path_join(dirs[i].dir@, "0"@)),
            None => None,
        },
    }
}

/// Looks for Neovim through `$NVIM_LISTEN_ADDRESS` and socket directories.
pub struct EnvAndSocketLocator {
    pub search_dirs: Vec<String>,
}

impl EnvAndSocketLocator {
    /// A locator that searches the given directories.
    pub fn new(search_dirs: Vec<String>) -> (r: Self)
        ensures
            r.search_dirs@ == search_dirs@,
    {
        Self { search_dirs }
    }

    /// A locator that searches `/tmp`.
    pub fn with_default_tmp() -> (r: Self)
        ensures
            r.search_dirs@.len() == 1,
            r.search_dirs@[0]@ == "/tmp"@,
    {
        Self::new(vec!["/tmp".to_owned()])
    }

    /// The socket to use among the socket directories found.
    pub fn select_socket_path(&self, session: &SessionInfo, root: &ProjectRoot, socket_dirs: &Vec<SocketDir>) -> (r: Option<String>)
        ensures
            match chosen_socket(socket_dirs@, session.name@, root.name@) {
                Some(s) => r matches Some(t) && t@ == s,
                None => r is None,
            },
    {
        let session_name = chars_of(session.name.as_str());
        let project_name = chars_of(root.name.as_str());
        let mut i: usize = 0;
        while i < socket_dirs.len()
            invariant
                i <= socket_dirs@.len(),
                session_name@ == session.name@,
                project_name@ == root.name@,
                matching_from(socket_dirs@, session.name@, root.name@, 0) == matching_from(socket_dirs@, session.name@, root.name@, i as int),
            decreases socket_dirs.len() - i,
        {
            let d = &socket_dirs[i];
            if d.has_socket {
                let dir = chars_of(d.dir.as_str());
                if contains_exec(&dir, &session_name) || contains_exec(&dir, &project_name) {
                    return Some(path_join_exec(d.dir.as_str(), "0"));
                }
            }
            i += 1;
        }
        let mut k: usize = 0;
        while k < socket_dirs.len()
            invariant
                k <= socket_dirs@.len(),
                matching_from(socket_dirs@, session.name@, root.name@, 0) is None,
                with_socket_from(socket_dirs@, 0) == with_socket_from(socket_dirs@, k as int),
            decreases socket_dirs.len() - k,
        {
            if socket_dirs[k].has_socket {
                return Some(path_join_exec(socket_dirs[k].dir.as_str(), "0"));
            }
            k += 1;
        }
        None
    }
}

impl NeovimInstanceLocator for EnvAndSocketLocator {
    /// The instance at `$NVIM_LISTEN_ADDRESS` when that socket exists
    /// (`env_address`), else the chosen socket with the project root as its
    /// directory.
    fn locate(
        &self,
        session: &SessionInfo,
        root: &ProjectRoot,
        env_address: Option<String>,
        socket_dirs: &Vec<SocketDir>,
    ) -> (r: Option<NvimInstance>)
        ensures
            env_address matches Some(a) ==> r matches Some(inst) && inst.address@ == a@
                && inst.session_name.deep_view() == Some(session.name@) && inst.cwd is None,
            env_address is None ==> match chosen_socket(socket_dirs@, session.name@, root.name@) {
                Some(s) => r matches Some(inst) && inst.address@ == s && inst.session_name.deep_view()
                    == Some(session.name@) && inst.cwd.deep_view() == Some(root.path@),
                None => r is None,
            },
    {
        if let Some(address) = env_address {
            return Some(NvimInstance { address, session_name: Some(session.name.clone()), cwd: None });
        }
        match self.select_socket_path(session, root, socket_dirs) {
            Some(address) => Some(
                NvimInstance {
                    address,
                    session_name: Some(session.name.clone()),
                    cwd: Some(root.path.clone()),
                },
            ),
            None => None,
        }
    }
}

/// A directory entry that may hold a Neovim socket: a directory whose name
/// starts with `nvim`.
pub open spec fn is_socket_dir(path: Seq<char>, is_dir: bool) -> bool {
    is_dir && match file_name(path) {
        Some(n) => has_prefix(n, "nvim"@),
        None => false,
    }
}

/// The socket directories among directory entries, in order.
pub open spec fn socket_dirs_of(entries: Seq<(String, bool)>) -> Seq<Seq<char>>
    decreases entries.len(),
{
    if entries.len() == 0 {
        Seq::empty()
    } else {
        let init = socket_dirs_of(entries.drop_last());
        if is_socket_dir(entries.last().0@, entries.last().1) {
            init.push(entries.last().0@)
        } else {
            init
        }
    }
}

impl EnvAndSocketLocator {
    /// The directories that may hold a Neovim socket, among the entries of
    /// the search directories (each entry's path and whether it is a directory).
    pub fn collect_socket_dirs(entries: &Vec<(String, bool)>) -> (r: Vec<String>)
        ensures
            Seq::new(r@.len(), |i: int| r@[i]@) == socket_dirs_of(entries@),
    {
        let nvim = chars_of("nvim");
        let mut r: Vec<String> = Vec::new();
        let mut k: usize = 0;
        while k < entries.len()
            invariant
                k <= entries@.len(),
                nvim@ == "nvim"@,
                Seq::new(r@.len(), |i: int| r@[i]@) == socket_dirs_of(entries@.take(k as int)),
            decreases entries.len() - k,
        {
            assert(entries@.take(k + 1).drop_last() =~= entries@.take(k as int));
            assert(entries@.take(k + 1).last() == entries@[k as int]);
            let (path, is_dir) = &entries[k];
            if *is_dir {
                if let Some(name) = file_name_exec(path.as_str()) {
                    if starts_with(&chars_of(name.as_str()), &nvim) {
                        r.push(path.clone());
                    }
                }
            }
            k += 1;
            assert(Seq::new(r@.len(), |i: int| r@[i]@) =~= socket_dirs_of(entries@.take(k as int)));
        }
        assert(entries@.take(entries@.len() as int) =~= entries@);
        r
    }
}

} // verus!
