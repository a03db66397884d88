//! Remote URLs and permalinks.

use jump::git::github::GitHubPermalinkGenerator;
use jump::git::repo::normalize_git_url;
use jump::LineRange;

#[test]
fn test_normalize_git_url() {
    assert_eq!(
        normalize_git_url("git@github.com:FlakM/jump.git"),
        "https://github.com/FlakM/jump"
    );

    assert_eq!(
        normalize_git_url("https://github.com/FlakM/jump.git"),
        "https://github.com/FlakM/jump"
    );

    assert_eq!(
        normalize_git_url("https://github.com/FlakM/jump"),
        "https://github.com/FlakM/jump"
    );
}

#[test]
fn test_build_github_url() {
    let base = "https://github.com/FlakM/jump";
    let rev = "abc123";
    let path = "src/main.rs";

    // Single line
    let lines = LineRange { start: 10, end: None };
    let url = GitHubPermalinkGenerator::build_github_url(base, rev, path, &lines);
    assert_eq!(url, "https://github.com/FlakM/jump/blob/abc123/src/main.rs#L10");

    // Range
    let lines = LineRange { start: 10, end: Some(15) };
    let url = GitHubPermalinkGenerator::build_github_url(base, rev, path, &lines);
    assert_eq!(url, "https://github.com/FlakM/jump/blob/abc123/src/main.rs#L10-L15");

    // Same line (start == end)
    let lines = LineRange { start: 10, end: Some(10) };
    let url = GitHubPermalinkGenerator::build_github_url(base, rev, path, &lines);
    assert_eq!(url, "https://github.com/FlakM/jump/blob/abc123/src/main.rs#L10");
}

#[test]
fn normalizes_ssh_url_without_git_suffix_and_other_hosts() {
    assert_eq!(normalize_git_url("git@gitlab.com:group/project"), "https://gitlab.com/group/project");
    assert_eq!(normalize_git_url("git@host-without-colon"), "git@host-without-colon");
    assert_eq!(normalize_git_url("ssh://git@github.com/a/b.git"), "ssh://git@github.com/a/b");
    assert_eq!(normalize_git_url(""), "");
}

#[test]
fn normalizing_twice_changes_nothing() {
    let once = normalize_git_url("git@github.com:FlakM/jump.git");
    assert_eq!(normalize_git_url(&once), once);
}

#[test]
fn builds_link_with_markdown_and_provider() {
    let link = GitHubPermalinkGenerator::github_link(
        "https://github.com/FlakM/jump",
        "8fd8d1b77395f68ef9ca9ce85f070e2376923eae",
        "src/main.rs",
        10,
        Some(20),
    );
    assert_eq!(
        link.url,
        "https://github.com/FlakM/jump/blob/8fd8d1b77395f68ef9ca9ce85f070e2376923eae/src/main.rs#L10-L20"
    );
    assert_eq!(
        link.markdown,
        "[src/main.rs#L10-L20](https://github.com/FlakM/jump/blob/8fd8d1b77395f68ef9ca9ce85f070e2376923eae/src/main.rs#L10-L20)"
    );
    assert_eq!(link.provider, "github");
    assert_eq!(link.relative_path, "src/main.rs");
    assert_eq!(link.lines.start, 10);
    assert_eq!(link.lines.end, Some(20));

    let other = GitHubPermalinkGenerator::github_link("https://example.org/x", "r", "a.rs", 1, None);
    assert_eq!(other.provider, "unknown");
    assert_eq!(other.url, "https://example.org/x/blob/r/a.rs#L1");
}

#[test]
fn recognises_github_urls() {
    assert!(GitHubPermalinkGenerator::is_github_url("https://github.com/a/b"));
    assert!(!GitHubPermalinkGenerator::is_github_url("https://gitlab.com/a/b"));
}
