//! Link parser unit scenarios.

use std::path::PathBuf;

use jump::{JumpLinkKind, JumpLinkParser, LinkParser};

#[test]
fn parses_markdown_github_link_with_range() {
    let parser = LinkParser;
    let input = "[main](https://github.com/FlakM/jump/blob/main/src/main.rs#L10-L12)";

    let request = parser.parse(input).expect("Expected parsed request");

    assert_eq!(request.kind, JumpLinkKind::Github);
    assert_eq!(PathBuf::from(&request.path), PathBuf::from("src/main.rs"));
    assert_eq!(request.line, Some(10));
    assert_eq!(request.end_line, Some(12));
    assert_eq!(request.revision.as_deref(), Some("main"));
    assert_eq!(request.repo_name.as_deref(), Some("jump"));
}

#[test]
fn parses_relative_path_with_line() {
    let parser = LinkParser;
    let input = "../src/lib.rs:42";

    let request = parser.parse(input).expect("Expected parsed request");

    assert_eq!(request.kind, JumpLinkKind::Relative);
    assert_eq!(PathBuf::from(&request.path), PathBuf::from("../src/lib.rs"));
    assert_eq!(request.line, Some(42));
    assert_eq!(request.end_line, None);
    assert!(request.revision.is_none());
    assert!(request.repo_name.is_none());
}

#[test]
fn link_parses_absolute_path_with_fragment() {
    let parser = LinkParser;
    let input = "/tmp/project/src/lib.rs#L5";

    let request = parser.parse(input).expect("Expected parsed request");

    assert_eq!(request.kind, JumpLinkKind::Absolute);
    assert_eq!(PathBuf::from(&request.path), PathBuf::from("/tmp/project/src/lib.rs"));
    assert_eq!(request.line, Some(5));
    assert_eq!(request.end_line, None);
    assert!(request.revision.is_none());
    assert!(request.repo_name.is_none());
}

#[test]
fn parses_file_url_with_line() {
    let parser = LinkParser;
    let input = "file:///home/user/project/src/main.rs#L11";

    let request = parser.parse(input).expect("Expected parsed request");

    assert_eq!(request.kind, JumpLinkKind::Absolute);
    assert_eq!(
        PathBuf::from(&request.path),
        PathBuf::from("/home/user/project/src/main.rs")
    );
    assert_eq!(request.line, Some(11));
    assert_eq!(request.end_line, None);
}

#[test]
fn parses_markdown_link_with_file_url() {
    let parser = LinkParser;
    let input = "[fn jump::main](file:///home/user/project/src/main.rs#L11)";

    let request = parser.parse(input).expect("Expected parsed request");

    assert_eq!(request.kind, JumpLinkKind::Absolute);
    assert_eq!(
        PathBuf::from(&request.path),
        PathBuf::from("/home/user/project/src/main.rs")
    );
    assert_eq!(request.line, Some(11));
}
