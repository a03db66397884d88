//! Links the library writes, read back by its parser.

use jump::git::github::GitHubPermalinkGenerator;
use jump::{JumpLinkKind, JumpLinkParser, LineRange, LinkParser};

#[test]
fn permalink_reads_back_as_github_request() {
    let parser = LinkParser;
    for (start, end, kept) in [(10, Some(20), Some(20)), (7, Some(7), None), (1, None, None), (0, Some(4294967295), Some(4294967295))] {
        let lines = LineRange { start, end };
        let url = GitHubPermalinkGenerator::build_github_url("https://github.com/FlakM/jump", "8fd8d1b", "src/main.rs", &lines);
        let req = parser.parse(&url).expect("permalink should parse");
        assert_eq!(req.kind, JumpLinkKind::Github);
        assert_eq!(req.path, "src/main.rs");
        assert_eq!(req.revision.as_deref(), Some("8fd8d1b"));
        assert_eq!(req.line, Some(start));
        assert_eq!(req.end_line, kept);
        assert_eq!(req.repo_name.as_deref(), Some("jump"));
    }
}

#[test]
fn permalink_markdown_reads_back_like_its_url() {
    let parser = LinkParser;
    let link = GitHubPermalinkGenerator::github_link("https://github.com/u/r", "abc", "a/b.rs", 3, Some(9));
    let from_markdown = parser.parse(&link.markdown).expect("markdown should parse");
    let from_url = parser.parse(&link.url).expect("url should parse");
    assert_eq!(from_markdown, from_url);
    assert_eq!(from_markdown.line, Some(3));
    assert_eq!(from_markdown.end_line, Some(9));
}

#[test]
fn markdown_link_reads_as_its_target() {
    let parser = LinkParser;
    for target in ["src/lib.rs:42", "/abs/file.rs#L5", "file:///x/y.rs#L2-L3", "notes.md"] {
        let wrapped = format!("[label text]({})", target);
        assert_eq!(parser.parse(&wrapped), parser.parse(target));
    }
}

#[test]
fn path_with_line_reads_back() {
    let parser = LinkParser;
    for (path, kind) in [("src/lib.rs", JumpLinkKind::Relative), ("/etc/hosts", JumpLinkKind::Absolute), ("a:b", JumpLinkKind::Relative)] {
        for line in [0u32, 1, 42, 4294967295] {
            let req = parser.parse(&format!("{}:{}", path, line)).expect("path:line should parse");
            assert_eq!(req.kind, kind);
            assert_eq!(req.path, path);
            assert_eq!(req.line, Some(line));
            assert_eq!(req.end_line, None);
        }
    }
}

#[test]
fn path_with_written_fragment_reads_back() {
    let parser = LinkParser;
    for (path, kind) in [("src/lib.rs", JumpLinkKind::Relative), ("/tmp/project/src/lib.rs", JumpLinkKind::Absolute)] {
        for (start, end, kept) in [(5, None, None), (3, Some(9), Some(9)), (4, Some(4), None)] {
            let link = GitHubPermalinkGenerator::github_link("https://github.com/u/r", "abc", path, start, end);
            let fragment = &link.url[link.url.find('#').unwrap()..];
            let req = parser.parse(&format!("{}{}", path, fragment)).expect("path#L should parse");
            assert_eq!(req.kind, kind);
            assert_eq!(req.path, path);
            assert_eq!(req.line, Some(start));
            assert_eq!(req.end_line, kept);
        }
    }
}
