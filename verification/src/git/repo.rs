//! Remote URLs of git repositories.
use vstd::prelude::*;

use crate::text::{
    chars_of, concat, find, has_suffix, lemma_find_match, lemma_match_found,
    lemma_matches_at_char, split_once, split_once_exec, string_of, strip_prefix, strip_prefix_exec,
    strip_suffix, strip_suffix_exec,
};

verus! {

/// The repository type of the `git2` crate, carried through unread.
#[verifier::external_type_specification]
#[verifier::external_body]
pub struct ExRepository(git2::Repository);

/// A git repository opened with `git2`.
pub struct Git2Repository {
    pub repo: git2::Repository,
}

/// `s` without one trailing `.git`, if it has one.
pub open spec fn without_git_suffix(s: Seq<char>) -> Seq<char> {
    match strip_suffix(s, ".git"@) {
        Some(t) => t,
        None => s,
    }
}

/// The https form of a remote URL: `git@host:path[.git]` becomes
/// `https://host/path`, and any other URL only loses a trailing `.git`.
pub open spec fn normalized_git_url(url: Seq<char>) -> Seq<char> {
    match strip_prefix(url, "git@"@) {
        Some(ssh) => match split_once(ssh, seq![':']) {
            Some((host, path)) => "https://"@ + host + seq!['/'] + without_git_suffix(path),
            None => without_git_suffix(url),
        },
        None => without_git_suffix(url),
    }
}

fn drop_git_suffix(s: &[char]) -> (r: Vec<char>)
    ensures
        r@ == without_git_suffix(s@),
{
    let dot_git = chars_of(".git");
    match strip_suffix_exec(s, &dot_git) {
        Some(t) => t,
        None => {
            let t = crate::text::slice_chars(s, 0, s.len());
            assert(t@ =~= s@);
            t
        },
    }
}

/// Converts an SSH remote URL to https and drops a trailing `.git`.
pub fn normalize_git_url(url: &str) -> (r: String)
    ensures
        r@ == normalized_git_url(url@),
{
    let u = chars_of(url);
    let git_at = chars_of("git@");
    let colon = vec![':'];
    assert(colon@ =~= seq![':']);
    if let Some(ssh) = strip_prefix_exec(&u, &git_at) {
        if let Some((host, path)) = split_once_exec(&ssh, &colon) {
            let https = chars_of("https://");
            let slash = vec!['/'];
            assert(slash@ =~= seq!['/']);
            let with_host = concat(&https, &host);
            let with_slash = concat(&with_host, &slash);
            let bare_path = drop_git_suffix(&path);
            let all = concat(&with_slash, &bare_path);
            return string_of(&all);
        }
    }
    string_of(&drop_git_suffix(&u))
}


/// Normalizing a normalized remote URL changes nothing, unless the result
/// still ends in `.git` (as `x.git.git` does, which loses one `.git` each time).
pub proof fn law_normalize_git_url_idempotent(url: Seq<char>)
    requires
        !has_suffix(normalized_git_url(url), ".git"@),
    ensures
        normalized_git_url(normalized_git_url(url)) == normalized_git_url(url),
{
    reveal_strlit("git@");
    reveal_strlit("https://");
    reveal_strlit(".git");
    let n = normalized_git_url(url);
    let git_at = "git@"@;
    assert(git_at =~= seq!['g', 'i', 't', '@']);
    assert(without_git_suffix(n) == n);
    if strip_prefix(n, git_at) is Some {
        assert(n[0] == 'g') by {
            assert(n.take(4)[0] == n[0]);
        }
        let from_ssh = match strip_prefix(url, git_at) {
            Some(ssh) => split_once(ssh, seq![':']) is Some,
            None => false,
        };
        if from_ssh {
            let ssh = strip_prefix(url, git_at)->0;
            let (host, path) = split_once(ssh, seq![':'])->0;
            assert(n == "https://"@ + host + seq!['/'] + without_git_suffix(path));
            assert(n[0] == 'h');
        }
        assert(n == without_git_suffix(url));
        assert(n.len() <= url.len());
        assert forall|k: int| 0 <= k < n.len() implies n[k] == url[k] by {
            if strip_suffix(url, ".git"@) is Some {
                assert(n == url.take(url.len() - 4));
            }
        }
        assert(url.take(4) =~= git_at) by {
            assert forall|k: int| 0 <= k < 4 implies url.take(4)[k] == git_at[k] by {
                assert(n.take(4)[k] == n[k]);
            }
        }
        let ssh = url.skip(4);
        assert(strip_prefix(url, git_at) == Some(ssh));
        assert(split_once(ssh, seq![':']) is None);
        let nssh = n.skip(4);
        if find(nssh, seq![':']) is Some {
            lemma_find_match(nssh, seq![':']);
            let k = find(nssh, seq![':'])->0;
            lemma_matches_at_char(nssh, ':', k);
            assert(ssh[k] == nssh[k]);
            lemma_matches_at_char(ssh, ':', k);
            lemma_match_found(ssh, seq![':'], k);
        }
        assert(strip_prefix(n, git_at) == Some(nssh));
    }
}
} // verus!
