//! GitHub permalinks.
use vstd::prelude::*;

use super::repo::Git2Repository;
use super::types::{GitHubLink, LineRange};
use crate::number::{decimal, decimal_exec};
use crate::text::{chars_of, concat, contains, contains_exec, string_of};

verus! {

/// The line fragment of a permalink: `#L<start>`, or `#L<start>-L<end>` when
/// the range ends on another line.
pub open spec fn line_fragment_text(start: u32, end: Option<u32>) -> Seq<char> {
    match end {
        Some(e) => if e != start {
            "#L"@ + decimal(start as nat) + "-L"@ + decimal(e as nat)
        } else {
            "#L"@ + decimal(start as nat)
        },
        None => "#L"@ + decimal(start as nat),
    }
}

/// The permalink `<base>/blob/<revision>/<path>#L..`.
pub open spec fn github_url(
    base: Seq<char>,
    revision: Seq<char>,
    relative_path: Seq<char>,
    start: u32,
    end: Option<u32>,
) -> Seq<char> {
    base + "/blob/"@ + revision + seq!['/'] + relative_path + line_fragment_text(start, end)
}

/// The markdown link `[<path>#L..](<url>)`.
pub open spec fn permalink_markdown(
    relative_path: Seq<char>,
    start: u32,
    end: Option<u32>,
    url: Seq<char>,
) -> Seq<char> {
    seq!['['] + relative_path + line_fragment_text(start, end) + "]("@ + url + seq![')']
}

/// The provider a remote URL belongs to.
pub open spec fn provider_of(remote_url: Seq<char>) -> Seq<char> {
    if contains(remote_url, "github.com"@) {
        "github"@
    } else {
        "unknown"@
    }
}

/// Builds GitHub permalinks for files of a repository.
pub struct GitHubPermalinkGenerator {
    pub repo: Git2Repository,
    pub remote_name: String,
}

impl GitHubPermalinkGenerator {
    /// Whether a remote URL is a GitHub one.
    pub fn is_github_url(url: &str) -> (r: bool)
        ensures
            r == contains(url@, "github.com"@),
    {
        let u = chars_of(url);
        let host = chars_of("github.com");
        contains_exec(&u, &host)
    }

    fn fragment_chars(lines: &LineRange) -> (r: Vec<char>)
        ensures
            r@ == line_fragment_text(lines.start, lines.end),
    {
        let hash_l = chars_of("#L");
        let start = decimal_exec(lines.start);
        let head = concat(&hash_l, &start);
        match lines.end {
            Some(end) => {
                if end != lines.start {
                    let dash_l = chars_of("-L");
                    let with_dash = concat(&head, &dash_l);
                    let end_digits = decimal_exec(end);
                    concat(&with_dash, &end_digits)
                } else {
                    head
                }
            },
            None => head,
        }
    }

    fn url_chars(base: &str, revision: &str, relative_path: &str, lines: &LineRange) -> (r: Vec<
        char,
    >)
        ensures
            r@ == github_url(base@, revision@, relative_path@, lines.start, lines.end),
    {
        let blob = chars_of("/blob/");
        let slash = vec!['/'];
        assert(slash@ =~= seq!['/']);
        let a = concat(&chars_of(base), &blob);
        let b = concat(&a, &chars_of(revision));
        let c = concat(&b, &slash);
        let d = concat(&c, &chars_of(relative_path));
        concat(&d, &Self::fragment_chars(lines))
    }

    /// The permalink `<base>/blob/<revision>/<path>#L<start>[-L<end>]`.
    pub fn build_github_url(base: &str, revision: &str, relative_path: &str, lines: &LineRange) -> (r:
        String)
        ensures
            r@ == github_url(base@, revision@, relative_path@, lines.start, lines.end),
    {
        string_of(&Self::url_chars(base, revision, relative_path, lines))
    }

    /// The link for lines of a file, given what the repository reported: its
    /// remote URL, the current revision and the file's path within it.
    pub fn github_link(
        remote_url: &str,
        revision: &str,
        relative_path: &str,
        start_line: u32,
        end_line: Option<u32>,
    ) -> (r: GitHubLink)
        ensures
            r.url@ == github_url(remote_url@, revision@, relative_path@, start_line, end_line),
            r.markdown@ == permalink_markdown(
                relative_path@,
                start_line,
                end_line,
                github_url(remote_url@, revision@, relative_path@, start_line, end_line),
            ),
            r.relative_path@ == relative_path@,
            r.revision@ == revision@,
            r.lines == (LineRange { start: start_line, end: end_line }),
            r.provider@ == provider_of(remote_url@),
    {
        let lines = LineRange { start: start_line, end: end_line };
        let url = Self::url_chars(remote_url, revision, relative_path, &lines);
        let open = vec!['['];
        assert(open@ =~= seq!['[']);
        let close = vec![')'];
        assert(close@ =~= seq![')']);
        let a = concat(&open, &chars_of(relative_path));
        let b = concat(&a, &Self::fragment_chars(&lines));
        let c = concat(&b, &chars_of("]("));
        let d = concat(&c, &url);
        let markdown = concat(&d, &close);
        let provider = if Self::is_github_url(remote_url) {
            chars_of("github")
        } else {
            chars_of("unknown")
        };
        GitHubLink {
            url: string_of(&url),
            markdown: string_of(&markdown),
            relative_path: relative_path.to_owned(),
            revision: revision.to_owned(),
            lines,
            provider: string_of(&provider),
        }
    }
}

} // verus!
