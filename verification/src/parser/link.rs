//! Turning link text into a [`JumpRequest`].
use vstd::prelude::*;

use super::types::{JumpLinkKind, JumpRequest, JumpRequestView};
use crate::number::{parse_u32, parse_u32_exec};
use crate::text::{
    before_first, before_first_exec, chars_of, contains, contains_exec, find, find_exec,
    is_digit, lemma_find_match, rsplit_once, rsplit_once_exec, slice_chars, split_nth,
    split_nth_exec, split_once, split_once_exec, string_of, strip_prefix, strip_prefix_exec,
    trim, trim_by, trim_end_by, trim_end_set, trim_set, trim_start_by, trim_start_set, trim_ws,
};

verus! {

/// The text a link stands for: surrounding whitespace and quotes dropped, the
/// target of a markdown link `[..](target)` taken out, or else surrounding
/// parentheses dropped.
pub open spec fn link_target(text: Seq<char>) -> Seq<char> {
    let trimmed = trim_by(trim_ws(text), seq!['"', '\'']);
    let bare = trim_end_by(trim_start_by(trimmed, seq!['(']), seq![')']);
    match split_once(trimmed, "]("@) {
        Some((_, after)) => match find(after, seq![')']) {
            Some(end) => after.take(end),
            None => bare,
        },
        None => bare,
    }
}

/// The lines named by a fragment such as `#L10-L12`, `L5` or `7-9`.
pub open spec fn line_fragment(fragment: Seq<char>) -> (Option<u32>, Option<u32>) {
    let normalized = trim_start_by(
        trim_ws(trim_start_by(fragment, seq!['#'])),
        seq!['L', 'l'],
    );
    if normalized.len() == 0 {
        (None, None)
    } else {
        match split_once(normalized, seq!['-']) {
            None => (parse_u32(normalized), None),
            Some((first, second)) => {
                let end = trim_start_by(second, seq!['L', 'l']);
                (
                    parse_u32(first),
                    if end.len() == 0 {
                        None
                    } else {
                        parse_u32(end)
                    },
                )
            },
        }
    }
}

/// A fragment that reads as a line reference: after leading `L`s, only digits,
/// `-` and `#`, and at least one character.
pub open spec fn line_like(fragment: Seq<char>) -> bool {
    let n = trim_start_by(fragment, seq!['L', 'l']);
    &&& n.len() > 0
    &&& forall|i: int| 0 <= i < n.len() ==> (is_digit(#[trigger] n[i]) || n[i] == '-' || n[i] == '#')
}

/// The path part and the line fragment of a target: split at the first `#`,
/// or else at the last `:` when what follows it reads as a line.
pub open spec fn path_and_line(target: Seq<char>) -> (Seq<char>, Option<Seq<char>>) {
    match split_once(target, seq!['#']) {
        Some((path, fragment)) => (path, Some(fragment)),
        None => match rsplit_once(target, seq![':']) {
            Some((path, fragment)) => if line_like(fragment) {
                (path, Some(fragment))
            } else {
                (target, None)
            },
            None => (target, None),
        },
    }
}

/// The lines of an optional fragment.
pub open spec fn fragment_lines(fragment: Option<Seq<char>>) -> (Option<u32>, Option<u32>) {
    match fragment {
        Some(f) => line_fragment(f),
        None => (None, None),
    }
}

/// The request for a GitHub blob URL
/// `https://github.com/<owner>/<repo>/blob/<revision>/<path>[?..][#<lines>]`.
pub open spec fn github_request(target: Seq<char>) -> Option<JumpRequestView> {
    if !contains(target, "github.com"@) || !contains(target, "/blob/"@) {
        None
    } else {
        let (link_part, fragment) = match split_once(target, seq!['#']) {
            Some((p, f)) => (p, Some(f)),
            None => (target, None),
        };
        let repo_name = match split_nth(link_part, "github.com/"@, 1) {
            Some(after_host) => split_nth(after_host, seq!['/'], 1),
            None => None,
        };
        match split_once(link_part, "/blob/"@) {
            None => None,
            Some((_, rest)) => match split_once(rest, seq!['/']) {
                None => None,
                Some((revision, remaining)) => Some(
                    JumpRequestView {
                        kind: JumpLinkKind::Github,
                        path: before_first(remaining, seq!['?']),
                        line: fragment_lines(fragment).0,
                        end_line: fragment_lines(fragment).1,
                        revision: Some(revision),
                        repo_name: repo_name,
                    },
                ),
            },
        }
    }
}

/// The request for a `file://` URL, which always names an absolute path.
pub open spec fn file_url_request(target: Seq<char>) -> Option<JumpRequestView> {
    match strip_prefix(target, "file://"@) {
        None => None,
        Some(rest) => {
            let (path, fragment) = path_and_line(rest);
            Some(
                JumpRequestView {
                    kind: JumpLinkKind::Absolute,
                    path: path,
                    line: fragment_lines(fragment).0,
                    end_line: fragment_lines(fragment).1,
                    revision: None,
                    repo_name: None,
                },
            )
        },
    }
}

/// A path is absolute when it starts at the root `/`.
pub open spec fn is_absolute_path(path: Seq<char>) -> bool {
    path.len() > 0 && path[0] == '/'
}

/// The request for a plain path, absolute or relative, with an optional line
/// suffix; an empty path gives nothing.
pub open spec fn file_request(target: Seq<char>) -> Option<JumpRequestView> {
    let (path, fragment) = path_and_line(target);
    if path.len() == 0 {
        None
    } else {
        Some(
            JumpRequestView {
                kind: if is_absolute_path(path) {
                    JumpLinkKind::Absolute
                } else {
                    JumpLinkKind::Relative
                },
                path: path,
                line: fragment_lines(fragment).0,
                end_line: fragment_lines(fragment).1,
                revision: None,
                repo_name: None,
            },
        )
    }
}

/// What a link text means: a GitHub link first, then a `file://` URL, then a
/// plain path.
pub open spec fn parse_link(text: Seq<char>) -> Option<JumpRequestView> {
    let target = link_target(text);
    if github_request(target) is Some {
        github_request(target)
    } else if file_url_request(target) is Some {
        file_url_request(target)
    } else {
        file_request(target)
    }
}

/// The view of an optional request.
pub open spec fn request_view(r: Option<JumpRequest>) -> Option<JumpRequestView> {
    match r {
        Some(q) => Some(q@),
        None => None,
    }
}

/// Parses link text into a request.
pub trait JumpLinkParser {
    fn parse(&self, text: &str) -> Option<JumpRequest>;
}

/// The parser for GitHub URLs, `file://` URLs and plain paths with line
/// suffixes.
#[derive(Default)]
pub struct LinkParser;

impl LinkParser {
    fn extract_link_target(&self, text: &[char]) -> (r: Vec<char>)
        ensures
            r@ == link_target(text@),
    {
        let spaced = trim(text);
        let quotes = vec!['"', '\''];
        assert(quotes@ =~= seq!['"', '\'']);
        let trimmed = trim_set(&spaced, &quotes);
        let open = chars_of("](");
        let close = vec![')'];
        assert(close@ =~= seq![')']);
        if let Some((_, after)) = split_once_exec(&trimmed, &open) {
            proof {
                lemma_find_match(after@, close@);
            }
            if let Some(end) = find_exec(&after, &close) {
                let r = slice_chars(&after, 0, end);
                assert(r@ =~= after@.take(end as int));
                return r;
            }
        }
        let opening = vec!['('];
        assert(opening@ =~= seq!['(']);
        let unopened = trim_start_set(&trimmed, &opening);
        trim_end_set(&unopened, &close)
    }

    fn parse_line_fragment(&self, fragment: &[char]) -> (r: (Option<u32>, Option<u32>))
        ensures
            r == line_fragment(fragment@),
    {
        let hashes = vec!['#'];
        assert(hashes@ =~= seq!['#']);
        let ells = vec!['L', 'l'];
        assert(ells@ =~= seq!['L', 'l']);
        let dash = vec!['-'];
        assert(dash@ =~= seq!['-']);
        let unhashed = trim_start_set(fragment, &hashes);
        let spaced = trim(&unhashed);
        let normalized = trim_start_set(&spaced, &ells);
        if normalized.len() == 0 {
            return (None, None);
        }
        match split_once_exec(&normalized, &dash) {
            None => (parse_u32_exec(&normalized), None),
            Some((first, second)) => {
                let start = parse_u32_exec(&first);
                let end_digits = trim_start_set(&second, &ells);
                let end = if end_digits.len() == 0 {
                    None
                } else {
                    parse_u32_exec(&end_digits)
                };
                (start, end)
            },
        }
    }

    fn looks_like_line(&self, fragment: &[char]) -> (r: bool)
        ensures
            r == line_like(fragment@),
    {
        let ells = vec!['L', 'l'];
        assert(ells@ =~= seq!['L', 'l']);
        let n = trim_start_set(fragment, &ells);
        if n.len() == 0 {
            return false;
        }
        let mut i: usize = 0;
        while i < n.len()
            invariant
                i <= n@.len(),
                n@ == trim_start_by(fragment@, seq!['L', 'l']),
                n@.len() > 0,
                forall|j: int|
                    0 <= j < i ==> (is_digit(#[trigger] n@[j]) || n@[j] == '-' || n@[j] == '#'),
            decreases n.len() - i,
        {
            let c = n[i];
            if !(('0' <= c && c <= '9') || c == '-' || c == '#') {
                assert(!(is_digit(n@[i as int]) || n@[i as int] == '-' || n@[i as int] == '#'));
                return false;
            }
            i += 1;
        }
        true
    }

    fn split_path_and_line(&self, target: &[char]) -> (r: (Vec<char>, Option<Vec<char>>))
        ensures
            r.0@ == path_and_line(target@).0,
            r.1 matches Some(f) ==> path_and_line(target@).1 == Some(f@),
            r.1 is None ==> path_and_line(target@).1 is None,
    {
        let hash = vec!['#'];
        assert(hash@ =~= seq!['#']);
        let colon = vec![':'];
        assert(colon@ =~= seq![':']);
        if let Some((path, fragment)) = split_once_exec(target, &hash) {
            return (path, Some(fragment));
        }
        if let Some((path, fragment)) = rsplit_once_exec(target, &colon) {
            if self.looks_like_line(&fragment) {
                return (path, Some(fragment));
            }
        }
        let whole = slice_chars(target, 0, target.len());
        assert(whole@ =~= target@);
        (whole, None)
    }

    fn lines_of(&self, fragment: &Option<Vec<char>>) -> (r: (Option<u32>, Option<u32>))
        ensures
            r == fragment_lines(
                match fragment {
                    Some(f) => Some(f@),
                    None => None,
                },
            ),
    {
        match fragment {
            Some(f) => self.parse_line_fragment(f),
            None => (None, None),
        }
    }

    fn parse_github(&self, target: &[char]) -> (r: Option<JumpRequest>)
        ensures
            request_view(r) == github_request(target@),
    {
        let host = chars_of("github.com");
        let blob = chars_of("/blob/");
        if !contains_exec(target, &host) || !contains_exec(target, &blob) {
            return None;
        }
        let hash = vec!['#'];
        assert(hash@ =~= seq!['#']);
        let slash = vec!['/'];
        assert(slash@ =~= seq!['/']);
        let question = vec!['?'];
        assert(question@ =~= seq!['?']);
        let (link_part, fragment) = match split_once_exec(target, &hash) {
            Some((p, f)) => (p, Some(f)),
            None => (slice_chars(target, 0, target.len()), None),
        };
        assert(fragment is None ==> link_part@ =~= target@);
        let host_slash = chars_of("github.com/");
        let repo_name = match split_nth_exec(&link_part, &host_slash, 1) {
            Some(after_host) => split_nth_exec(&after_host, &slash, 1),
            None => None,
        };
        let rest = match split_once_exec(&link_part, &blob) {
            Some((_, rest)) => rest,
            None => return None,
        };
        let (revision, remaining) = match split_once_exec(&rest, &slash) {
            Some(pair) => pair,
            None => return None,
        };
        let path_part = before_first_exec(&remaining, &question);
        let (line, end_line) = self.lines_of(&fragment);
        let repo_name_string = match repo_name {
            Some(n) => Some(string_of(&n)),
            None => None,
        };
        let r = JumpRequest {
            kind: JumpLinkKind::Github,
            path: string_of(&path_part),
            line,
            end_line,
            revision: Some(string_of(&revision)),
            repo_name: repo_name_string,
        };
        assert(request_view(Some(r)) =~= github_request(target@));
        Some(r)
    }

    fn parse_file_url(&self, target: &[char]) -> (r: Option<JumpRequest>)
        ensures
            request_view(r) == file_url_request(target@),
    {
        let scheme = chars_of("file://");
        let path_str = match strip_prefix_exec(target, &scheme) {
            Some(p) => p,
            None => return None,
        };
        let (path_part, fragment) = self.split_path_and_line(&path_str);
        let (line, end_line) = self.lines_of(&fragment);
        let r = JumpRequest {
            kind: JumpLinkKind::Absolute,
            path: string_of(&path_part),
            line,
            end_line,
            revision: None,
            repo_name: None,
        };
        assert(request_view(Some(r)) =~= file_url_request(target@));
        Some(r)
    }

    fn parse_file(&self, target: &[char]) -> (r: Option<JumpRequest>)
        ensures
            request_view(r) == file_request(target@),
    {
        let (path_part, fragment) = self.split_path_and_line(target);
        if path_part.len() == 0 {
            return None;
        }
        let kind = if path_part[0] == '/' {
            JumpLinkKind::Absolute
        } else {
            JumpLinkKind::Relative
        };
        let (line, end_line) = self.lines_of(&fragment);
        let r = JumpRequest {
            kind,
            path: string_of(&path_part),
            line,
            end_line,
            revision: None,
            repo_name: None,
        };
        assert(request_view(Some(r)) =~= file_request(target@));
        Some(r)
    }
}

impl JumpLinkParser for LinkParser {
    fn parse(&self, text: &str) -> (r: Option<JumpRequest>)
        ensures
            request_view(r) == parse_link(text@),
    {
        let chars = chars_of(text);
        let target = self.extract_link_target(&chars);
        if let Some(req) = self.parse_github(&target) {
            return Some(req);
        }
        if let Some(req) = self.parse_file_url(&target) {
            return Some(req);
        }
        self.parse_file(&target)
    }
}

} // verus!
