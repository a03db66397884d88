//! tmux session management through a recording executor.

use std::collections::VecDeque;
use std::sync::{Arc, Mutex};

use jump::tmux::{extract_tmux_client_pid, find_nvim_child_pid, TmuxInvocation};
use jump::tmux::session::{
    activation_listing_command, activation_plan, candidates_command, client_sessions_command,
    client_ttys_command, first_attached_kitty, has_project_marker, list_sessions_command, open_command,
    open_keys, pane_paths_command, select_commands, shell_listing_command, spawn_command,
    switch_tty_command, NvimPaneCandidate,
};
use jump::{
    JumpLinkKind, MaterializedPath, NvimPaneInfo, SessionInfo, SessionInventory, SessionProvisioner,
    TmuxCommandExecutor, TmuxError, TmuxSessionManager,
};

#[derive(Clone, Default)]
struct TestExecutor {
    outputs: Arc<Mutex<VecDeque<String>>>,
    fail: bool,
    calls: Arc<Mutex<Vec<Vec<String>>>>,
}

impl TmuxCommandExecutor for TestExecutor {
    fn run(&self, args: &[&str]) -> Result<String, TmuxError> {
        self.calls
            .lock()
            .unwrap()
            .push(args.iter().map(|s| s.to_string()).collect());
        if self.fail {
            return Err(TmuxError { message: "forced failure".to_string() });
        }
        Ok(self.outputs.lock().unwrap().pop_front().unwrap_or_default())
    }
}

fn target(line: Option<u32>) -> MaterializedPath {
    MaterializedPath {
        absolute: "/tmp/repo/src/main.rs".to_string(),
        relative: Some("src/main.rs".to_string()),
        line,
        end_line: None,
        kind: JumpLinkKind::Relative,
        revision: None,
    }
}

#[test]
fn lists_sessions_from_output() {
    let exec = TestExecutor {
        outputs: Arc::new(Mutex::new(VecDeque::from(vec![
            "dev /home/user/dev\nwork /tmp/work\n".to_string(),
            "dev /home/user/dev\nwork /tmp/work\n".to_string(),
        ]))),
        ..Default::default()
    };
    let manager = TmuxSessionManager::with_executor(exec.clone());

    let sessions = manager.list().unwrap();
    assert_eq!(sessions.len(), 2);
    assert_eq!(sessions[0].name, "dev");
    assert_eq!(std::path::PathBuf::from(&sessions[1].path), std::path::PathBuf::from("/tmp/work"));

    let calls = exec.calls.lock().unwrap();
    assert_eq!(calls.len(), 2);
    assert_eq!(calls[0], vec!["list-sessions", "-F", "#{session_name} #{session_path}"]);
    assert_eq!(
        calls[1],
        vec!["list-panes", "-a", "-F", "#{session_name} #{pane_current_path}"]
    );
}

#[test]
fn activates_session() {
    let exec = TestExecutor::default();
    let manager = TmuxSessionManager::with_executor(exec.clone());

    // first call: no panes listed, we attempt switch-client fallback
    manager.activate_session("work").expect("activate should succeed");

    {
        let calls = exec.calls.lock().unwrap();
        assert!(!calls.is_empty());
        assert_eq!(
            calls[0],
            vec![
                "list-panes",
                "-a",
                "-F",
                "#{session_name} #{window_index} #{pane_index} #{pane_current_command}"
            ]
        );
        assert!(calls.iter().any(|c| c == &vec!["switch-client", "-t", "work"]));
    }

    // When list-panes returns data, we should select window and pane too (prefer nvim pane).
    exec.outputs.lock().unwrap().clear();
    exec.outputs
        .lock()
        .unwrap()
        .extend([String::from("work 1 0 bash\nwork 1 1 nvim\n")]);

    manager
        .activate_session("work")
        .expect("activate should succeed with pane focus");

    let calls = exec.calls.lock().unwrap();
    assert!(calls.iter().any(|c| c.starts_with(&["select-window".to_string()])));
    assert!(calls.iter().any(|c| c.starts_with(&["select-pane".to_string()])));
    assert!(calls.iter().any(|c| c == &vec!["switch-client", "-t", "work"]));
}

#[test]
fn spawns_session_with_nvim_command() {
    let exec = TestExecutor::default();
    let manager = TmuxSessionManager::with_executor(exec.clone());

    let session = manager
        .spawn("dev", "/tmp/repo", &target(Some(12)))
        .expect("spawn should succeed");

    assert_eq!(session.name, "dev");
    assert_eq!(session.path, "/tmp/repo");

    let calls = exec.calls.lock().unwrap();
    assert_eq!(calls.len(), 1);
    let args = &calls[0];
    assert_eq!(args[0], "new-session");
    assert_eq!(args[3], "dev");
    assert_eq!(args[4], "-c");
    assert_eq!(args[5], "/tmp/repo");
    assert!(args[6].contains("nvim +12"));
    assert!(args[6].contains("/tmp/repo/src/main.rs"));
}

#[test]
fn opens_new_window_in_existing_session() {
    let exec = TestExecutor::default();
    let manager = TmuxSessionManager::with_executor(exec.clone());

    manager
        .open_nvim_in_session("dev", "/tmp/repo", &target(Some(8)))
        .expect("open should succeed");

    let calls = exec.calls.lock().unwrap();
    assert_eq!(calls.len(), 2);
    assert_eq!(calls[0][0], "list-panes");
    let args = &calls[1];
    assert_eq!(args[0], "new-window");
    assert_eq!(args[2], "dev");
    assert_eq!(args[3], "-c");
    assert_eq!(args[4], "/tmp/repo");
    assert_eq!(args[5], "nvim +8 /tmp/repo/src/main.rs");
}

#[test]
fn reuses_empty_shell_pane() {
    let exec = TestExecutor {
        outputs: Arc::new(Mutex::new(VecDeque::from(vec!["0 nvim\n1 zsh\n".to_string()]))),
        ..Default::default()
    };
    let manager = TmuxSessionManager::with_executor(exec.clone());
    manager.open_nvim_in_session("dev", "/tmp/repo", &target(None)).unwrap();
    let calls = exec.calls.lock().unwrap();
    assert_eq!(calls[0], vec!["list-panes", "-t", "dev:1", "-F", "#{pane_index} #{pane_current_command}"]);
    assert_eq!(
        calls[1],
        vec!["send-keys", "-t", "dev:1.1", "cd /tmp/repo && nvim +1 /tmp/repo/src/main.rs", "Enter"]
    );
}

#[test]
fn spawn_reports_tmux_failure() {
    let exec = TestExecutor { fail: true, ..Default::default() };
    let manager = TmuxSessionManager::with_executor(exec);
    let err = manager.spawn("dev", "/tmp/repo", &target(Some(1))).unwrap_err();
    assert_eq!(err.message, "forced failure");
    assert!(manager.list().is_err());
    assert!(manager.activate_session("dev").is_ok());
}

#[test]
fn parses_sessions_with_missing_path_and_blank_lines() {
    let sessions = TmuxSessionManager::<TestExecutor>::parse_sessions("  \nsolo\nwith space  /a b/c \r\n");
    assert_eq!(sessions.len(), 2);
    assert_eq!(sessions[0].name, "solo");
    assert_eq!(sessions[0].path, ".");
    assert_eq!(sessions[1].name, "with");
    assert_eq!(sessions[1].path, "space  /a b/c");
}

#[test]
fn pane_paths_keep_first_path_per_session() {
    let paths = TmuxSessionManager::<TestExecutor>::parse_pane_paths("dev /one\nwork /w\ndev /two\nlonely\n");
    assert_eq!(
        paths,
        vec![
            ("dev".to_string(), "/one".to_string()),
            ("work".to_string(), "/w".to_string())
        ]
    );
}

#[test]
fn lists_sessions_with_first_pane_paths() {
    let exec = TestExecutor {
        outputs: Arc::new(Mutex::new(VecDeque::from(vec![
            "dev /home/user/dev\nwork /tmp/work\n".to_string(),
            "dev /home/user/dev/sub\ndev /elsewhere\n".to_string(),
        ]))),
        ..Default::default()
    };
    let manager = TmuxSessionManager::with_executor(exec);
    let sessions = manager.list().unwrap();
    assert_eq!(sessions[0].path, "/home/user/dev/sub");
    assert_eq!(sessions[1].path, "/tmp/work");
}

#[test]
fn finds_session_by_name_ignoring_case() {
    let exec = TestExecutor {
        outputs: Arc::new(Mutex::new(VecDeque::from(vec!["Dev /d\nwork /w\n".to_string()]))),
        ..Default::default()
    };
    let manager = TmuxSessionManager::with_executor(exec);
    let found = manager.find_session_by_name("DEV").unwrap().unwrap();
    assert_eq!(found.name, "Dev");
}

#[test]
fn activation_prefers_nvim_then_last_pane() {
    let plan = activation_plan("work", Some("work 1 0 bash\nwork 1 1 nvim\nother 2 0 nvim\n"));
    assert_eq!(
        plan,
        vec![
            vec!["select-window".to_string(), "-t".to_string(), "work:1".to_string()],
            vec!["select-pane".to_string(), "-t".to_string(), "work:1.1".to_string()],
            vec!["switch-client".to_string(), "-t".to_string(), "work".to_string()],
        ]
    );
    let plan = activation_plan("work", Some("work 1 0 bash\nwork 2 3\n"));
    assert_eq!(plan[1][2], "work:2.3");
    let plan = activation_plan("work", None);
    assert_eq!(plan, vec![vec!["switch-client".to_string(), "-t".to_string(), "work".to_string()]]);
}

#[test]
fn finds_nvim_pane_candidates_and_first_known_pid() {
    let exec = TestExecutor {
        outputs: Arc::new(Mutex::new(VecDeque::from(vec![
            "1 0 zsh 100\n1 1 nvim 200\n2 0 nvim x\n3 0 nvim 300\n".to_string(),
        ]))),
        ..Default::default()
    };
    let manager = TmuxSessionManager::with_executor(exec.clone());
    let candidates: Vec<NvimPaneCandidate> = manager.nvim_pane_candidates("dev").unwrap();
    assert_eq!(candidates.len(), 2);
    assert_eq!(candidates[0].pane_pid, 200);
    assert_eq!(candidates[1].window, "3");
    let pane = manager.find_nvim_pane("dev", &candidates, &vec![None, Some(301)]).unwrap();
    assert_eq!(pane.window, "3");
    assert_eq!(pane.nvim_pid, 301);
    assert!(manager.find_nvim_pane("dev", &candidates, &vec![None, None]).is_none());
    let calls = exec.calls.lock().unwrap();
    assert_eq!(
        calls[0],
        vec![
            "list-panes",
            "-s",
            "-t",
            "dev",
            "-F",
            "#{window_index} #{pane_index} #{pane_current_command} #{pane_pid}"
        ]
    );
}

#[test]
fn pane_info_targets_and_socket() {
    let info = NvimPaneInfo {
        session: "dev".to_string(),
        window: "2".to_string(),
        pane: "1".to_string(),
        nvim_pid: 4242,
    };
    assert_eq!(info.pane_target(), "dev:2.1");
    assert_eq!(info.window_target(), "dev:2");
    assert_eq!(info.socket_path(1000), "/run/user/1000/nvim.4242.0");
}

#[test]
fn selects_window_then_pane() {
    let exec = TestExecutor::default();
    let manager = TmuxSessionManager::with_executor(exec.clone());
    let info = NvimPaneInfo {
        session: "dev".to_string(),
        window: "2".to_string(),
        pane: "1".to_string(),
        nvim_pid: 1,
    };
    manager.select_pane(&info).unwrap();
    let calls = exec.calls.lock().unwrap();
    assert_eq!(calls[0], vec!["select-window", "-t", "dev:2"]);
    assert_eq!(calls[1], vec!["select-pane", "-t", "dev:2.1"]);
}

#[test]
fn finds_session_of_terminal_through_its_tmux_client() {
    let exec = TestExecutor {
        outputs: Arc::new(Mutex::new(VecDeque::from(vec![
            "99 other\n1234 dev\n".to_string(),
        ]))),
        ..Default::default()
    };
    let manager = TmuxSessionManager::with_executor(exec.clone());
    let tree = "kitty(10)---zsh(11)---tmux: client(1234)";
    assert_eq!(manager.find_session_by_parent_pid(Some(tree)).unwrap(), Some("dev".to_string()));
    assert_eq!(manager.find_session_by_parent_pid(None).unwrap(), None);
    assert_eq!(manager.find_session_by_parent_pid(Some("kitty(10)---zsh(11)")).unwrap(), None);
    let calls = exec.calls.lock().unwrap();
    assert_eq!(calls.len(), 1);
    assert_eq!(calls[0], vec!["list-clients", "-F", "#{client_pid} #{session_name}"]);
}

#[test]
fn finds_kitty_attached_to_session() {
    let exec = TestExecutor {
        outputs: Arc::new(Mutex::new(VecDeque::from(vec![
            "5 work\n".to_string(),
            "6 Dev\n".to_string(),
        ]))),
        ..Default::default()
    };
    let manager = TmuxSessionManager::with_executor(exec);
    let kitties = vec![
        (1, None),
        (2, Some("kitty(2)---tmux: client(5)".to_string())),
        (3, Some("kitty(3)---tmux: client(6)".to_string())),
    ];
    assert_eq!(manager.find_kitty_for_session("dev", &kitties).unwrap(), Some(3));
}

#[test]
fn switches_client_of_terminal() {
    let exec = TestExecutor {
        outputs: Arc::new(Mutex::new(VecDeque::from(vec![
            "/dev/pts/1 77\n/dev/pts/2 78\n".to_string(),
        ]))),
        ..Default::default()
    };
    let manager = TmuxSessionManager::with_executor(exec.clone());
    manager
        .switch_client_in_kitty(Some("kitty(1)---tmux: client(78)"), "dev")
        .unwrap();
    let calls = exec.calls.lock().unwrap();
    assert_eq!(calls[1], vec!["switch-client", "-c", "/dev/pts/2", "-t", "dev"]);
}

#[test]
fn reads_pids_from_pstree_output() {
    assert_eq!(extract_tmux_client_pid("x---tmux: client(4321)---y"), Some(4321));
    assert_eq!(extract_tmux_client_pid("tmux: client(99999999999)"), None);
    assert_eq!(extract_tmux_client_pid("no client here"), None);
    assert_eq!(find_nvim_child_pid("zsh(1)---nvim(20)---nvim(21)"), Some(21));
    assert_eq!(find_nvim_child_pid("zsh(1)---nvim(20)---nvim(99999999999)"), Some(20));
    assert_eq!(find_nvim_child_pid("zsh(1)"), None);
}

#[test]
fn collects_first_pane_path_of_each_session() {
    let exec = TestExecutor {
        outputs: Arc::new(Mutex::new(VecDeque::from(vec!["dev /one\ndev /two\nwork /w\n".to_string()]))),
        ..Default::default()
    };
    let manager = TmuxSessionManager::with_executor(exec.clone());
    let paths = manager.collect_pane_paths().unwrap();
    assert_eq!(
        paths,
        vec![("dev".to_string(), "/one".to_string()), ("work".to_string(), "/w".to_string())]
    );
    let calls = exec.calls.lock().unwrap();
    assert_eq!(calls[0], vec!["list-panes", "-a", "-F", "#{session_name} #{pane_current_path}"]);
}

fn session(name: &str, path: &str) -> SessionInfo {
    SessionInfo { name: name.to_string(), path: path.to_string() }
}

#[test]
fn repo_session_prefers_exact_root_over_ancestor() {
    let candidates = vec![
        (session("ws", "/w"), Some("/w".to_string()), true),
        (session("crate", "/w/crate"), Some("/w/crate/".to_string()), false),
    ];
    let found = TmuxSessionManager::<TestExecutor>::repo_session_among("/w/crate", &candidates).unwrap();
    assert_eq!(found.name, "crate");
}

#[test]
fn repo_session_falls_back_to_project_ancestor() {
    let candidates = vec![
        (session("gone", "/x"), None, true),
        (session("plain", "/w"), Some("/w".to_string()), false),
        (session("ws", "/w2"), Some("/w".to_string()), true),
        (session("other", "/o"), Some("/o".to_string()), true),
    ];
    let found = TmuxSessionManager::<TestExecutor>::repo_session_among("/w/crate", &candidates).unwrap();
    assert_eq!(found.name, "ws");
    let none = TmuxSessionManager::<TestExecutor>::repo_session_among("/elsewhere", &candidates);
    assert!(none.is_none());
    let sibling = vec![(session("wc", "/w/cr"), Some("/w/cr".to_string()), true)];
    assert!(TmuxSessionManager::<TestExecutor>::repo_session_among("/w/crate", &sibling).is_none());
}

#[test]
fn project_marker_present_when_any_flag_is_set() {
    assert!(!has_project_marker(&vec![]));
    assert!(!has_project_marker(&vec![false, false, false]));
    assert!(has_project_marker(&vec![false, true, false]));
}

#[test]
fn invocations_follow_the_argument_shapes() {
    assert_eq!(
        TmuxInvocation::of_args(&["list-sessions", "-F", "#{session_name}"]),
        TmuxInvocation::ListSessions { format: "#{session_name}".to_string() }
    );
    assert_eq!(
        TmuxInvocation::of_args(&["list-panes", "-a", "-F", "fmt", "extra"]),
        TmuxInvocation::ListPanes { format: "fmt".to_string() }
    );
    assert_eq!(
        TmuxInvocation::of_args(&["new-session", "-d", "-s", "dev", "-c", "/r", "nvim +1 /r/a"]),
        TmuxInvocation::NewSession { name: "dev".to_string(), dir: "/r".to_string(), command: "nvim +1 /r/a".to_string() }
    );
    assert_eq!(
        TmuxInvocation::of_args(&["new-window", "-t", "dev", "-c", "/r", "nvim"]),
        TmuxInvocation::NewWindow { target: "dev".to_string(), dir: "/r".to_string(), command: "nvim".to_string() }
    );
    assert_eq!(
        TmuxInvocation::of_args(&["select-pane", "-t", "dev:1.0"]),
        TmuxInvocation::SelectPane { target: "dev:1.0".to_string() }
    );
    assert_eq!(TmuxInvocation::of_args(&["switch-client", "-c", "/dev/pts/1", "-t", "dev"]), TmuxInvocation::Other);
    assert_eq!(TmuxInvocation::of_args(&["list-panes", "-s", "-t", "dev", "-F", "x"]), TmuxInvocation::Other);
    assert_eq!(TmuxInvocation::of_args(&[]), TmuxInvocation::Other);
    assert!(TmuxInvocation::Other.keeps_output());
    assert!(!TmuxInvocation::SwitchClient { target: "x".to_string() }.keeps_output());
}

#[test]
fn no_kitty_found_without_tmux_clients() {
    let exec = TestExecutor::default();
    let manager = TmuxSessionManager::with_executor(exec.clone());
    let kitties = vec![(10, None), (11, Some("kitty(11)---zsh(12)".to_string()))];
    assert_eq!(manager.find_kitty_for_session("dev", &kitties).unwrap(), None);
    assert!(manager.switch_client_in_kitty(Some("kitty(11)---zsh(12)"), "dev").is_ok());
    assert!(exec.calls.lock().unwrap().is_empty());
}

fn err(message: &str) -> Result<String, TmuxError> {
    Err(TmuxError { message: message.to_string() })
}

type M = TmuxSessionManager<TestExecutor>;

#[test]
fn command_planners_give_exact_command_lines() {
    let t = target(Some(8));
    assert_eq!(open_keys("/r", &t), "cd /r && nvim +8 /tmp/repo/src/main.rs");
    assert_eq!(
        open_command("dev", "/r", &t, Some("dev:1.2")),
        vec!["send-keys", "-t", "dev:1.2", "cd /r && nvim +8 /tmp/repo/src/main.rs", "Enter"]
    );
    assert_eq!(
        open_command("dev", "/r", &target(None), None),
        vec!["new-window", "-t", "dev", "-c", "/r", "nvim +1 /tmp/repo/src/main.rs"]
    );
    assert_eq!(shell_listing_command("dev"), vec!["list-panes", "-t", "dev:1", "-F", "#{pane_index} #{pane_current_command}"]);
    assert_eq!(
        spawn_command("dev", "/r", &t),
        vec!["new-session", "-d", "-s", "dev", "-c", "/r", "nvim +8 /tmp/repo/src/main.rs"]
    );
    let pane = NvimPaneInfo { session: "dev".to_string(), window: "1".to_string(), pane: "2".to_string(), nvim_pid: 9 };
    assert_eq!(select_commands(&pane), vec![vec!["select-window", "-t", "dev:1"], vec!["select-pane", "-t", "dev:1.2"]]);
    assert_eq!(switch_tty_command("/dev/pts/3", "dev"), vec!["switch-client", "-c", "/dev/pts/3", "-t", "dev"]);
}

#[test]
fn result_planners_pass_errors_and_parse_outputs() {
    let sessions = M::sessions_from_outputs(
        Ok("dev /a\nwork /b\n".to_string()),
        Ok(vec![("work".to_string(), "/w".to_string())]),
    )
    .unwrap();
    assert_eq!(sessions[0].path, "/a");
    assert_eq!(sessions[1].path, "/w");
    assert_eq!(M::sessions_from_outputs(err("no server"), Ok(vec![])).unwrap_err().message, "no server");
    assert_eq!(M::sessions_from_outputs(Ok("dev /a\n".to_string()), Err(TmuxError { message: "x".to_string() })).unwrap()[0].path, "/a");
    assert_eq!(M::pane_paths_from_output(err("e")).unwrap_err().message, "e");
    assert_eq!(M::session_named_from(Ok(sessions), "WORK").unwrap().unwrap().name, "work");
    assert!(M::candidates_from_output(Ok("0 0 bash 100\n1 0 zsh 200\n".to_string())).unwrap().is_empty());
    assert!(M::candidates_from_output(err("e")).is_err());
    assert_eq!(M::shell_pane_from_output("dev", Ok("0 nvim\n1 zsh\n".to_string())).unwrap(), Some("dev:1.1".to_string()));
    assert_eq!(M::client_session_from_output(7, Ok("5 a\n7 dev\n".to_string())).unwrap(), Some("dev".to_string()));
    assert!(M::client_session_from_output(7, err("e")).is_err());
    assert!(M::unit_from_output(Ok(String::new())).is_ok());
    let spawned = M::spawned_from_output("dev", "/r", Ok(String::new())).unwrap();
    assert_eq!((spawned.name.as_str(), spawned.path.as_str()), ("dev", "/r"));
    assert!(M::spawned_from_output("dev", "/r", err("e")).is_err());
}

#[test]
fn nvim_lookup_without_nvim_gives_nothing_and_failure_is_an_error() {
    let exec = TestExecutor {
        outputs: Arc::new(Mutex::new(VecDeque::from(vec!["0 0 bash 100\n1 0 zsh 200\n".to_string()]))),
        ..Default::default()
    };
    let manager = TmuxSessionManager::with_executor(exec.clone());
    let candidates = manager.nvim_pane_candidates("dev").unwrap();
    assert!(manager.find_nvim_pane("dev", &candidates, &vec![]).is_none());
    assert_eq!(
        exec.calls.lock().unwrap()[0],
        vec!["list-panes", "-s", "-t", "dev", "-F", "#{window_index} #{pane_index} #{pane_current_command} #{pane_pid}"]
    );
    let failing = TmuxSessionManager::with_executor(TestExecutor { fail: true, ..Default::default() });
    assert!(failing.nvim_pane_candidates("dev").is_err());
}

#[test]
fn open_types_keys_into_shell_pane_and_ignores_their_result() {
    let exec = TestExecutor {
        outputs: Arc::new(Mutex::new(VecDeque::from(vec!["0 nvim\n1 zsh\n".to_string()]))),
        ..Default::default()
    };
    let manager = TmuxSessionManager::with_executor(exec.clone());
    assert!(manager.open_nvim_in_session("dev", "/r", &target(Some(3))).is_ok());
    let calls = exec.calls.lock().unwrap();
    assert_eq!(calls.len(), 2);
    assert_eq!(calls[1], vec!["send-keys", "-t", "dev:1.1", "cd /r && nvim +3 /tmp/repo/src/main.rs", "Enter"]);
}

#[test]
fn open_returns_new_window_error_and_list_fails_with_list_sessions() {
    let failing = TmuxSessionManager::with_executor(TestExecutor { fail: true, ..Default::default() });
    assert!(failing.open_nvim_in_session("dev", "/r", &target(None)).is_err());
    assert!(failing.select_pane(&NvimPaneInfo { session: "s".to_string(), window: "1".to_string(), pane: "0".to_string(), nvim_pid: 1 }).is_ok());
    assert!(failing.activate_session("s").is_ok());
    assert!(failing.find_kitty_for_session("s", &vec![(1, Some("tmux: client(5)".to_string()))]).unwrap().is_none());
    assert!(failing.switch_client_in_kitty(Some("tmux: client(5)"), "s").is_err());
    assert!(failing.find_session_by_parent_pid(Some("tmux: client(5)")).is_err());
}

fn strings(v: &[&str]) -> Vec<String> {
    v.iter().map(|s| s.to_string()).collect()
}

#[test]
fn listing_commands_are_the_ones_run() {
    assert_eq!(list_sessions_command(), strings(&["list-sessions", "-F", "#{session_name} #{session_path}"]));
    assert_eq!(pane_paths_command(), strings(&["list-panes", "-a", "-F", "#{session_name} #{pane_current_path}"]));
    assert_eq!(
        activation_listing_command(),
        strings(&["list-panes", "-a", "-F", "#{session_name} #{window_index} #{pane_index} #{pane_current_command}"])
    );
    assert_eq!(
        candidates_command("dev"),
        strings(&["list-panes", "-s", "-t", "dev", "-F", "#{window_index} #{pane_index} #{pane_current_command} #{pane_pid}"])
    );
    assert_eq!(client_sessions_command(), strings(&["list-clients", "-F", "#{client_pid} #{session_name}"]));
    assert_eq!(client_ttys_command(), strings(&["list-clients", "-F", "#{client_tty} #{client_pid}"]));

    let exec = TestExecutor::default();
    let manager = TmuxSessionManager::with_executor(exec.clone());
    manager.list().unwrap();
    assert_eq!(*exec.calls.lock().unwrap(), vec![list_sessions_command(), pane_paths_command()]);
}

#[test]
fn first_attached_kitty_picks_the_first_match_in_order() {
    let kitties = vec![(1, None), (2, None), (3, None)];
    let lookups: Vec<Result<Option<String>, TmuxError>> = vec![
        Err(TmuxError { message: "no server".to_string() }),
        Ok(Some("other".to_string())),
        Ok(Some("DEV".to_string())),
    ];
    assert_eq!(first_attached_kitty(&kitties, &lookups, "dev"), Some(3));
    assert_eq!(first_attached_kitty(&kitties, &lookups[..2].to_vec(), "dev"), None);
    let both: Vec<Result<Option<String>, TmuxError>> = vec![Ok(Some("dev".to_string())), Ok(Some("dev".to_string()))];
    assert_eq!(first_attached_kitty(&kitties, &both, "dev"), Some(1));
    assert_eq!(first_attached_kitty(&vec![], &both, "dev"), None);
}
