//! Link parsing.

use std::path::PathBuf;

use jump::{JumpLinkKind, JumpLinkParser, LinkParser};

#[test]
fn parses_github_url_and_extracts_components() {
    let parser = LinkParser;
    let url = "https://github.com/FlakM/jump/blob/main/src/main.rs#L10-L20";

    let request = parser.parse(url).expect("should parse");

    assert_eq!(request.kind, JumpLinkKind::Github);
    assert_eq!(PathBuf::from(&request.path), PathBuf::from("src/main.rs"));
    assert_eq!(request.line, Some(10));
    assert_eq!(request.end_line, Some(20));
    assert_eq!(request.revision.as_deref(), Some("main"));
    assert_eq!(request.repo_name.as_deref(), Some("jump"));
}

#[test]
fn parses_markdown_link_with_github_url() {
    let parser = LinkParser;
    let markdown = "[some symbol](https://github.com/user/repo/blob/abc123/path/to/file.rs#L42)";

    let request = parser.parse(markdown).expect("should parse");

    assert_eq!(request.kind, JumpLinkKind::Github);
    assert_eq!(PathBuf::from(&request.path), PathBuf::from("path/to/file.rs"));
    assert_eq!(request.line, Some(42));
    assert_eq!(request.revision.as_deref(), Some("abc123"));
    assert_eq!(request.repo_name.as_deref(), Some("repo"));
}

#[test]
fn parses_relative_path_with_line_number() {
    let parser = LinkParser;

    let request = parser.parse("src/lib.rs:42").expect("should parse");

    assert_eq!(request.kind, JumpLinkKind::Relative);
    assert_eq!(PathBuf::from(&request.path), PathBuf::from("src/lib.rs"));
    assert_eq!(request.line, Some(42));
    assert!(request.repo_name.is_none());
}

#[test]
fn integration_link_parsing_parses_absolute_path_with_fragment() {
    let parser = LinkParser;

    let request = parser.parse("/tmp/test/file.rs#L5").expect("should parse");

    assert_eq!(request.kind, JumpLinkKind::Absolute);
    assert_eq!(PathBuf::from(&request.path), PathBuf::from("/tmp/test/file.rs"));
    assert_eq!(request.line, Some(5));
}
