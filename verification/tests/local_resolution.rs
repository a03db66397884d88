//! Paths, project roots, materialized targets and Hyprland windows.

use jump::hyprland::{find_largest_kitty, find_largest_kitty_any_workspace, list_kitty_windows};
use jump::materializer::{MaterializeError, ResolvedPaths};
use jump::number::{decimal_exec, parse_u32_exec};
use jump::nvim::SocketDir;
use jump::project::WalkEntry;
use jump::paths::{
    file_name_exec, parent_exec, path_join_exec, path_starts_with_exec, path_strip_prefix_exec, same_path_exec,
};
use jump::{
    EnvAndSocketLocator, NeovimInstanceLocator, SessionInfo, FastProjectScanner, FilesystemMaterializer, HyprlandWindow, JumpLinkKind, JumpRequest,
    PathMaterializer, ProjectRoot, Workspace,
};

fn chars(s: &str) -> Vec<char> {
    s.chars().collect()
}

#[test]
fn path_components_decide_prefixes() {
    assert!(path_starts_with_exec("/a/b/c", "/a/b"));
    assert!(path_starts_with_exec("/a/b/", "/a/b"));
    assert!(!path_starts_with_exec("/a/bc", "/a/b"));
    assert!(path_starts_with_exec("/a//b/./c", "/a/b"));
    assert_eq!(path_strip_prefix_exec("/a/b/c/d.rs", "/a/b"), Some("c/d.rs".to_string()));
    assert_eq!(path_strip_prefix_exec("/a/b", "/a/b"), Some(String::new()));
    assert_eq!(path_strip_prefix_exec("/x/y", "/a"), None);
}

#[test]
fn joins_names_and_parents() {
    assert_eq!(path_join_exec("/root", "src/lib.rs"), "/root/src/lib.rs");
    assert_eq!(path_join_exec("/root/", "src"), "/root/src");
    assert_eq!(path_join_exec("/root", "/abs"), "/abs");
    assert_eq!(file_name_exec("/home/user/project"), Some("project".to_string()));
    assert_eq!(file_name_exec("/"), None);
    assert_eq!(file_name_exec("dir/.."), None);
    assert_eq!(parent_exec("/a/b"), Some("/a".to_string()));
    assert_eq!(parent_exec("/a"), Some("/".to_string()));
    assert_eq!(parent_exec("/"), None);
}

#[test]
fn project_root_is_named_after_its_directory() {
    let root = ProjectRoot::new("/home/user/jump".to_string(), "Cargo.toml".to_string());
    assert_eq!(root.name, "jump");
    assert_eq!(root.marker_file, "Cargo.toml");
    let root = ProjectRoot::new("/".to_string(), ".git".to_string());
    assert_eq!(root.name, "unknown");
}

#[test]
fn scanner_finds_first_marker_and_nearest_root() {
    let scanner = FastProjectScanner::with_defaults();
    assert_eq!(scanner.marker_files.len(), 6);
    assert_eq!(scanner.marker_files[0], "Cargo.toml");
    assert_eq!(
        scanner.find_marker_in_directory(&vec![false, true, false, false, true, false]),
        Some("package.json".to_string())
    );
    assert_eq!(scanner.find_marker_in_directory(&vec![false; 6]), None);

    let dirs = FastProjectScanner::ancestors_of("/w/proj/src", 10);
    assert_eq!(dirs, vec!["/w/proj/src", "/w/proj", "/w", "/"]);
    assert_eq!(FastProjectScanner::ancestors_of("/w/proj/src", 2), vec!["/w/proj/src", "/w/proj"]);

    let present = vec![vec![false; 6], vec![false, false, false, false, true, false], vec![true; 6]];
    let root = scanner.walk_up_to_root(&dirs, &present).unwrap();
    assert_eq!(root.path, "/w/proj");
    assert_eq!(root.marker_file, ".git");
    assert_eq!(root.name, "proj");
    assert!(scanner.walk_up_to_root(&dirs, &vec![vec![false; 6]; 4]).is_none());
}

fn request(kind: JumpLinkKind, path: &str) -> JumpRequest {
    JumpRequest {
        kind,
        path: path.to_string(),
        line: Some(3),
        end_line: Some(4),
        revision: Some("abc".to_string()),
        repo_name: None,
    }
}

#[test]
fn materializes_relative_path_under_root() {
    let root = ProjectRoot::new("/p".to_string(), "Cargo.toml".to_string());
    let req = request(JumpLinkKind::Relative, "src/lib.rs");
    assert_eq!(
        FilesystemMaterializer::candidate_path(&root, &req, &Some("/real/p".to_string())),
        "/real/p/src/lib.rs"
    );
    let resolved = ResolvedPaths {
        canonical_root: Some("/real/p".to_string()),
        canonical_target: Some("/real/p/src/lib.rs".to_string()),
    };
    let m = FilesystemMaterializer.materialize(&root, &req, &resolved).unwrap();
    assert_eq!(m.absolute, "/real/p/src/lib.rs");
    assert_eq!(m.relative, Some("src/lib.rs".to_string()));
    assert_eq!(m.line, Some(3));
    assert_eq!(m.end_line, Some(4));
    assert_eq!(m.kind, JumpLinkKind::Relative);
    assert_eq!(m.revision, Some("abc".to_string()));
}

#[test]
fn rejects_escape_and_missing_files() {
    let root = ProjectRoot::new("/p".to_string(), "Cargo.toml".to_string());
    let req = request(JumpLinkKind::Relative, "../etc/passwd");
    let resolved = ResolvedPaths {
        canonical_root: Some("/p".to_string()),
        canonical_target: Some("/etc/passwd".to_string()),
    };
    assert_eq!(
        FilesystemMaterializer.materialize(&root, &req, &resolved),
        Err(MaterializeError::EscapesRoot { resolved: "/etc/passwd".to_string(), root: "/p".to_string() })
    );
    let missing = ResolvedPaths { canonical_root: None, canonical_target: None };
    assert_eq!(
        FilesystemMaterializer.materialize(&root, &req, &missing),
        Err(MaterializeError::CanonicalizeFailed { path: "/p/../etc/passwd".to_string() })
    );
}

#[test]
fn absolute_paths_may_lie_outside_root() {
    let root = ProjectRoot::new("/p".to_string(), "Cargo.toml".to_string());
    let req = request(JumpLinkKind::Absolute, "/etc/hosts");
    let resolved = ResolvedPaths {
        canonical_root: Some("/p".to_string()),
        canonical_target: Some("/etc/hosts".to_string()),
    };
    let m = FilesystemMaterializer.materialize(&root, &req, &resolved).unwrap();
    assert_eq!(m.absolute, "/etc/hosts");
    assert_eq!(m.relative, None);
}

fn window(pid: u32, class: &str, workspace: i32, w: u32, h: u32) -> HyprlandWindow {
    HyprlandWindow {
        address: format!("0x{}", pid),
        pid,
        class: class.to_string(),
        title: String::new(),
        workspace: Workspace { id: workspace, name: workspace.to_string() },
        at: [0, 0],
        size: [w, h],
    }
}

#[test]
fn picks_largest_kitty_window() {
    let windows = vec![
        window(1, "kitty", 1, 100, 100),
        window(2, "firefox", 1, 1000, 1000),
        window(3, "kitty", 2, 500, 500),
        window(4, "kitty", 1, 200, 50),
        window(5, "kitty", 1, 50, 200),
    ];
    assert_eq!(find_largest_kitty(windows.clone(), 1).unwrap().pid, 5);
    assert_eq!(find_largest_kitty_any_workspace(windows.clone()).unwrap().pid, 3);
    assert!(find_largest_kitty(windows.clone(), 9).is_none());
    let kitties: Vec<u32> = list_kitty_windows(windows).iter().map(|w| w.pid).collect();
    assert_eq!(kitties, vec![1, 3, 4, 5]);
    assert_eq!(window(1, "kitty", 1, u32::MAX, u32::MAX).area(), (u32::MAX as u64) * (u32::MAX as u64));
}

#[test]
fn decimal_digits_read_back() {
    assert_eq!(decimal_exec(0), chars("0"));
    assert_eq!(decimal_exec(4294967295), chars("4294967295"));
    assert_eq!(parse_u32_exec(&chars("+42")), Some(42));
    assert_eq!(parse_u32_exec(&chars("4294967296")), None);
    assert_eq!(parse_u32_exec(&chars("")), None);
    assert_eq!(parse_u32_exec(&chars("+")), None);
    assert_eq!(parse_u32_exec(&chars("1a")), None);
    assert_eq!(parse_u32_exec(&decimal_exec(123456)), Some(123456));
}

#[test]
fn walk_finds_each_marked_directory_once() {
    let scanner = FastProjectScanner::new(vec!["Cargo.toml".to_string(), ".git".to_string()]);
    let entry = |path: &str, is_dir: bool, present: Vec<bool>| WalkEntry { path: path.to_string(), is_dir, present };
    let entries = vec![
        entry("/w", true, vec![false, false]),
        entry("/w/a", true, vec![false, true]),
        entry("/w/a/Cargo.toml", false, vec![true, true]),
        entry("/w/b", true, vec![true, true]),
        entry("/w/a/", true, vec![true, false]),
        entry("/w/c", true, vec![]),
    ];
    let projects = scanner.projects_among(&entries);
    let summary: Vec<(String, String, String)> =
        projects.iter().map(|p| (p.path.clone(), p.name.clone(), p.marker_file.clone())).collect();
    assert_eq!(
        summary,
        vec![
            ("/w/a".to_string(), "a".to_string(), ".git".to_string()),
            ("/w/b".to_string(), "b".to_string(), "Cargo.toml".to_string()),
        ]
    );
}

#[test]
fn socket_dirs_are_directories_named_nvim() {
    let entries = vec![
        ("/tmp/nvim.dev.1".to_string(), true),
        ("/tmp/nvimfile".to_string(), false),
        ("/tmp/other".to_string(), true),
        ("/tmp/nvim1234".to_string(), true),
    ];
    let dirs = EnvAndSocketLocator::collect_socket_dirs(&entries);
    assert_eq!(dirs, vec!["/tmp/nvim.dev.1".to_string(), "/tmp/nvim1234".to_string()]);

    let locator = EnvAndSocketLocator::with_default_tmp();
    let session = SessionInfo { name: "dev".to_string(), path: "/p".to_string() };
    let root = ProjectRoot::new("/p/proj".to_string(), ".git".to_string());
    let socket_dirs = vec![
        SocketDir { dir: dirs[1].clone(), has_socket: true },
        SocketDir { dir: dirs[0].clone(), has_socket: true },
    ];
    let inst = locator.locate(&session, &root, None, &socket_dirs).unwrap();
    assert_eq!(inst.address, "/tmp/nvim.dev.1/0");
    assert_eq!(inst.cwd, Some("/p/proj".to_string()));
}

#[test]
fn joining_base_with_stripped_rest_names_the_path_again() {
    for (path, base) in [("/a/b/c/d.rs", "/a/b/"), ("/a//b/./c", "/a/b"), ("/a/b", "/a/b"), ("/x/../y", "/")] {
        let rel = path_strip_prefix_exec(path, base).unwrap();
        let joined = path_join_exec(base, &rel);
        assert!(same_path_exec(&joined, path), "{} + {} gave {}", base, rel, joined);
    }
    assert_eq!(path_strip_prefix_exec("/a//b/./c", "/a/b"), Some("c".to_string()));
    assert!(!same_path_exec("/a/b", "/a/b/c"));
}

#[test]
fn strip_prefix_keeps_the_remaining_text_as_written() {
    assert_eq!(path_strip_prefix_exec("/r/a//b", "/r"), Some("a//b".to_string()));
    assert_eq!(path_strip_prefix_exec("/r/a/./b/", "/r"), Some("a/./b".to_string()));
    assert_eq!(path_strip_prefix_exec("/r/./a", "/r/"), Some("a".to_string()));
    assert_eq!(path_strip_prefix_exec("/r/.", "/r"), Some(String::new()));
    assert_eq!(path_strip_prefix_exec("./a/", ""), Some("./a".to_string()));
    assert_eq!(path_strip_prefix_exec("//", ""), Some("/".to_string()));
    assert_eq!(path_strip_prefix_exec("a/b", "a"), Some("b".to_string()));
    assert_eq!(path_strip_prefix_exec("/rx/a", "/r"), None);
}
