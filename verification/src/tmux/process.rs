//! Process ids read from `pstree -p` output.
use vstd::prelude::*;

use crate::number::{parse_u32, parse_u32_exec};
use crate::text::chars_of;

verus! {

/// The text of capture group 1 of the leftmost match of the regular
/// expression `pattern` in `text` (`None` without a match, without that
/// group, or for an invalid pattern).
pub uninterp spec fn regex_first_capture(pattern: Seq<char>, text: Seq<char>) -> Option<Seq<char>>;

/// For each non-overlapping match of the regular expression `pattern` in
/// `text`, from left to right, the text of its capture group 1 (`None` where
/// the group did not take part); nothing for an invalid pattern.
pub uninterp spec fn regex_all_captures(pattern: Seq<char>, text: Seq<char>) -> Seq<Option<Seq<char>>>;

/// The view of an optional string.
pub open spec fn capture_view(o: Option<String>) -> Option<Seq<char>> {
    match o {
        Some(s) => Some(s@),
        None => None,
    }
}

/// Compiles `pattern` with `regex::Regex::new` and returns capture group 1
/// of `Regex::captures` on `text`: the result is `regex_first_capture` of the
/// pattern and the text.
#[verifier::external_body]
fn first_capture(pattern: &str, text: &str) -> (r: Option<String>)
    ensures
        capture_view(r) == regex_first_capture(pattern@, text@),
{
    let re = regex::Regex::new(pattern).ok()?;
    let caps = re.captures(text)?;
    caps.get(1).map(|m| m.as_str().to_string())
}

/// Compiles `pattern` with `regex::Regex::new` and returns capture group 1
/// of each match of `Regex::captures_iter` on `text`: the result is
/// `regex_all_captures` of the pattern and the text.
#[verifier::external_body]
fn all_captures(pattern: &str, text: &str) -> (r: Vec<Option<String>>)
    ensures
        r@.len() == regex_all_captures(pattern@, text@).len(),
        forall|i: int|
            0 <= i < r@.len() ==> capture_view(#[trigger] r@[i]) == regex_all_captures(pattern@, text@)[i],
{
    match regex::Regex::new(pattern) {
        Ok(re) => re.captures_iter(text).map(|caps| caps.get(1).map(|m| m.as_str().to_string())).collect(),
        Err(_) => Vec::new(),
    }
}

/// The pattern of the tmux client process in `pstree -p` output.
pub open spec fn tmux_client_pattern() -> Seq<char> {
    "tmux: client\\((\\d+)\\)"@
}

/// The pattern of an nvim process in `pstree -p` output.
pub open spec fn nvim_pid_pattern() -> Seq<char> {
    "nvim\\((\\d+)\\)"@
}

/// The number in an optional capture.
pub open spec fn pid_of_capture(capture: Option<Seq<char>>) -> Option<u32> {
    match capture {
        Some(d) => parse_u32(d),
        None => None,
    }
}

/// The last capture, scanning from the end below index `k`, that reads as a `u32`.
pub open spec fn last_pid_below(captures: Seq<Option<Seq<char>>>, k: int) -> Option<u32>
    decreases k,
{
    if k <= 0 {
        None
    } else if pid_of_capture(captures[k - 1]) is Some {
        pid_of_capture(captures[k - 1])
    } else {
        last_pid_below(captures, k - 1)
    }
}

/// The last capture that reads as a `u32`.
pub open spec fn last_pid(captures: Seq<Option<Seq<char>>>) -> Option<u32> {
    last_pid_below(captures, captures.len() as int)
}

/// The process id in a capture.
pub fn pid_from_capture(capture: Option<&str>) -> (r: Option<u32>)
    ensures
        r == pid_of_capture(
            match capture {
                Some(c) => Some(c@),
                None => None,
            },
        ),
{
    match capture {
        Some(c) => parse_u32_exec(&chars_of(c)),
        None => None,
    }
}

/// The last of the captured numbers that reads as a `u32`.
pub fn last_pid_from_captures(captures: &Vec<Option<String>>) -> (r: Option<u32>)
    ensures
        r == last_pid(Seq::new(captures@.len(), |i: int| capture_view(captures@[i]))),
{
    let ghost caps = Seq::new(captures@.len(), |i: int| capture_view(captures@[i]));
    let mut k: usize = captures.len();
    while k > 0
        invariant
            k <= captures@.len(),
            caps == Seq::new(captures@.len(), |i: int| capture_view(captures@[i])),
            last_pid(caps) == last_pid_below(caps, k as int),
        decreases k,
    {
        let p = match &captures[k - 1] {
            Some(c) => pid_from_capture(Some(c.as_str())),
            None => pid_from_capture(None),
        };
        assert(p == pid_of_capture(caps[k - 1]));
        if p.is_some() {
            return p;
        }
        k -= 1;
    }
    None
}

/// The pid of the tmux client in `pstree -p` output: the number captured by the
/// first match of `tmux: client(<digits>)`, if it reads as a `u32`.
pub fn extract_tmux_client_pid(pstree_output: &str) -> (r: Option<u32>)
    ensures
        r == pid_of_capture(regex_first_capture(tmux_client_pattern(), pstree_output@)),
{
    let capture = first_capture("tmux: client\\((\\d+)\\)", pstree_output);
    match capture {
        Some(c) => pid_from_capture(Some(c.as_str())),
        None => pid_from_capture(None),
    }
}

/// The pid of the innermost nvim process in `pstree -p` output: the last
/// number captured by `nvim(<digits>)` that reads as a `u32`.
pub fn find_nvim_child_pid(pstree_output: &str) -> (r: Option<u32>)
    ensures
        r == last_pid(regex_all_captures(nvim_pid_pattern(), pstree_output@)),
{
    let captures = all_captures("nvim\\((\\d+)\\)", pstree_output);
    let r = last_pid_from_captures(&captures);
    assert(Seq::new(captures@.len(), |i: int| capture_view(captures@[i])) =~= regex_all_captures(
        nvim_pid_pattern(),
        pstree_output@,
    ));
    r
}

} // verus!
