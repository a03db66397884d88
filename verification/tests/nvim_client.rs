//! Opening files in Neovim and locating its socket.

use std::sync::{Arc, Mutex};

use jump::nvim::{NvrCommandExecutor, NvrError, SocketDir};
use jump::{
    EnvAndSocketLocator, JumpLinkKind, MaterializedPath, NeovimClient, NeovimInstanceLocator,
    NvimInstance, NvrClient, ProjectRoot, SessionInfo,
};

#[derive(Clone, Default)]
struct TestExecutor {
    calls: Arc<Mutex<Vec<Vec<String>>>>,
    fail: bool,
}

impl NvrCommandExecutor for TestExecutor {
    fn run(&self, args: &[&str]) -> Result<(), NvrError> {
        self.calls
            .lock()
            .unwrap()
            .push(args.iter().map(|s| s.to_string()).collect());
        if self.fail {
            return Err(NvrError { message: "forced fail".to_string() });
        }
        Ok(())
    }
}

fn materialized(path: &str) -> MaterializedPath {
    MaterializedPath {
        absolute: path.to_string(),
        relative: None,
        line: Some(5),
        end_line: None,
        kind: JumpLinkKind::Absolute,
        revision: None,
    }
}

#[test]
fn sends_edit_command_to_nvr() {
    let exec = TestExecutor::default();
    let client = NvrClient::with_executor(exec.clone());

    let instance = NvimInstance {
        address: "/tmp/nvim1234/0".into(),
        session_name: None,
        cwd: None,
    };

    client
        .open(&instance, &materialized("/tmp/file.rs"))
        .expect("should succeed");

    let calls = exec.calls.lock().unwrap();
    assert_eq!(calls.len(), 1);
    assert_eq!(calls[0][0], "--servername");
    assert_eq!(calls[0][1], "/tmp/nvim1234/0");
    assert_eq!(calls[0][2], "--remote-send");
    assert!(calls[0][3].contains(":edit +5"));
    assert_eq!(calls[0][3], "<Esc>:edit +5 /tmp/file.rs<CR>");
}

#[test]
fn reports_nvr_failure_and_defaults_to_line_one() {
    let exec = TestExecutor { fail: true, ..Default::default() };
    let client = NvrClient::new(exec.clone());
    let instance = NvimInstance { address: "/s".into(), session_name: None, cwd: None };
    let mut target = materialized("/f.rs");
    target.line = None;
    assert!(client.open(&instance, &target).is_err());
    assert_eq!(exec.calls.lock().unwrap()[0][3], "<Esc>:edit +1 /f.rs<CR>");
}

fn session() -> SessionInfo {
    SessionInfo { name: "dev".to_string(), path: "/p".to_string() }
}

#[test]
fn prefers_env_socket() {
    let locator = EnvAndSocketLocator::with_default_tmp();
    assert_eq!(locator.search_dirs, vec!["/tmp".to_string()]);
    let root = ProjectRoot::new("/home/u/proj".to_string(), ".git".to_string());
    let inst = locator
        .locate(&session(), &root, Some("/run/env.sock".to_string()), &vec![])
        .unwrap();
    assert_eq!(inst.address, "/run/env.sock");
    assert_eq!(inst.session_name.as_deref(), Some("dev"));
    assert!(inst.cwd.is_none());
}

#[test]
fn finds_socket_matching_session_or_project() {
    let locator = EnvAndSocketLocator::new(vec!["/tmp".to_string()]);
    let root = ProjectRoot::new("/home/u/proj".to_string(), ".git".to_string());
    let dirs = vec![
        SocketDir { dir: "/tmp/nvim1".to_string(), has_socket: true },
        SocketDir { dir: "/tmp/nvim-proj".to_string(), has_socket: true },
        SocketDir { dir: "/tmp/nvim-dev".to_string(), has_socket: false },
    ];
    let inst = locator.locate(&session(), &root, None, &dirs).unwrap();
    assert_eq!(inst.address, "/tmp/nvim-proj/0");
    assert_eq!(inst.cwd.as_deref(), Some("/home/u/proj"));

    let plain = vec![
        SocketDir { dir: "/tmp/nvimA".to_string(), has_socket: false },
        SocketDir { dir: "/tmp/nvimB".to_string(), has_socket: true },
    ];
    let inst = locator.locate(&session(), &root, None, &plain).unwrap();
    assert_eq!(inst.address, "/tmp/nvimB/0");
    assert!(locator.locate(&session(), &root, None, &vec![]).is_none());
}

#[test]
fn nvr_arguments_name_the_socket_and_keys() {
    let instance = NvimInstance { address: "/tmp/nvim1/0".to_string(), session_name: None, cwd: None };
    assert_eq!(
        NvrClient::<TestExecutor>::nvr_args(&instance, &materialized("/p/a.rs")),
        vec!["--servername", "/tmp/nvim1/0", "--remote-send", "<Esc>:edit +5 /p/a.rs<CR>"]
    );
}
