//! tmux sessions: reading what tmux reports and deciding which commands to run.
use vstd::prelude::*;

use super::process::{extract_tmux_client_pid, pid_of_capture, regex_first_capture, tmux_client_pattern};
use crate::materializer::MaterializedPath;
use crate::paths::{path_starts_with, path_starts_with_exec, same_path, same_path_exec};
use crate::number::{decimal, decimal_exec, parse_u32, parse_u32_exec};
use crate::text::{
    chars_eq, chars_of, concat, contains, contains_exec, eq_ignore_ascii_case,
    eq_ignore_ascii_case_exec, is_ws, lemma_lines_cons, lemma_words_single, lemma_words_space, strip_cr, lines, lines_exec, split_once, split_once_exec, string_of, trim,
    trim_ws, views, words, words_exec,
};

verus! {

/// A tmux session and the directory it works in.
#[derive(Debug, Clone, PartialEq, Eq)]
pub struct SessionInfo {
    pub name: String,
    pub path: String,
}

impl View for SessionInfo {
    type V = (Seq<char>, Seq<char>);

    open spec fn view(&self) -> (Seq<char>, Seq<char>) {
        (self.name@, self.path@)
    }
}

/// The views of a sequence of sessions.
pub open spec fn session_views(v: Seq<SessionInfo>) -> Seq<(Seq<char>, Seq<char>)> {
    Seq::new(v.len(), |i: int| v[i]@)
}

/// A Neovim pane within a tmux session.
#[derive(Debug, Clone)]
pub struct NvimPaneInfo {
    pub session: String,
    pub window: String,
    pub pane: String,
    pub nvim_pid: u32,
}

/// A pane that runs `nvim`, with the pid of the pane's process.
#[derive(Debug, Clone)]
pub struct NvimPaneCandidate {
    pub window: String,
    pub pane: String,
    pub pane_pid: u32,
}

/// An error reported by a tmux command.
#[derive(Debug, Clone)]
pub struct TmuxError {
    pub message: String,
}

/// Runs tmux with the given arguments and returns its standard output.
pub trait TmuxCommandExecutor {
    fn run(&self, args: &[&str]) -> Result<String, TmuxError>;
}

/// `session:window.pane`.
pub open spec fn pane_target_of(session: Seq<char>, window: Seq<char>, pane: Seq<char>) -> Seq<char> {
    session + seq![':'] + window + seq!['.'] + pane
}

/// `session:window`.
pub open spec fn window_target_of(session: Seq<char>, window: Seq<char>) -> Seq<char> {
    session + seq![':'] + window
}

/// The socket path `/run/user/<uid>/nvim.<pid>.0` of a Neovim instance.
pub open spec fn socket_path_of(uid: u32, pid: u32) -> Seq<char> {
    "/run/user/"@ + decimal(uid as nat) + "/nvim."@ + decimal(pid as nat) + ".0"@
}

impl NvimPaneInfo {
    /// The path of this instance's RPC socket for the user `uid`.
    pub fn socket_path(&self, uid: u32) -> (r: String)
        ensures
            r@ == socket_path_of(uid, self.nvim_pid),
    {
        let a = concat(&chars_of("/run/user/"), &decimal_exec(uid));
        let b = concat(&a, &chars_of("/nvim."));
        let c = concat(&b, &decimal_exec(self.nvim_pid));
        string_of(&concat(&c, &chars_of(".0")))
    }

    /// The tmux pane target `session:window.pane`.
    pub fn pane_target(&self) -> (r: String)
        ensures
            r@ == pane_target_of(self.session@, self.window@, self.pane@),
    {
        pane_target_chars(&chars_of(self.session.as_str()), &chars_of(self.window.as_str()), &chars_of(self.pane.as_str()))
    }

    /// The tmux window target `session:window`.
    pub fn window_target(&self) -> (r: String)
        ensures
            r@ == window_target_of(self.session@, self.window@),
    {
        window_target_chars(&chars_of(self.session.as_str()), &chars_of(self.window.as_str()))
    }
}

fn pane_target_chars(session: &[char], window: &[char], pane: &[char]) -> (r: String)
    ensures
        r@ == pane_target_of(session@, window@, pane@),
{
    let colon = vec![':'];
    assert(colon@ =~= seq![':']);
    let dot = vec!['.'];
    assert(dot@ =~= seq!['.']);
    let a = concat(session, &colon);
    let b = concat(&a, window);
    let c = concat(&b, &dot);
    string_of(&concat(&c, pane))
}

fn window_target_chars(session: &[char], window: &[char]) -> (r: String)
    ensures
        r@ == window_target_of(session@, window@),
{
    let colon = vec![':'];
    assert(colon@ =~= seq![':']);
    let a = concat(session, &colon);
    string_of(&concat(&a, window))
}

// ---------------------------------------------------------------------------
// Sessions and the paths of their panes
/// The session a line of `list-sessions -F "#{session_name} #{session_path}"`
/// describes: blank lines describe none, and a line without a path gives `.`.
pub open spec fn session_of_line(line: Seq<char>) -> Option<(Seq<char>, Seq<char>)> {
    let t = trim_ws(line);
    if t.len() == 0 {
        None
    } else {
        match split_once(t, seq![' ']) {
            Some((name, path)) => Some((name, path)),
            None => Some((t, seq!['.'])),
        }
    }
}

/// The sessions described by the lines, in order.
pub open spec fn sessions_of_lines(ls: Seq<Seq<char>>) -> Seq<(Seq<char>, Seq<char>)>
    decreases ls.len(),
{
    if ls.len() == 0 {
        Seq::empty()
    } else {
        let init = sessions_of_lines(ls.drop_last());
        match session_of_line(ls.last()) {
            Some(s) => init.push(s),
            None => init,
        }
    }
}

/// The session name and pane path on a line of
/// `list-panes -a -F "#{session_name} #{pane_current_path}"`.
pub open spec fn pane_path_of_line(line: Seq<char>) -> Option<(Seq<char>, Seq<char>)> {
    let t = trim_ws(line);
    if t.len() == 0 {
        None
    } else {
        split_once(t, seq![' '])
    }
}

/// Some entry of `m` has the name `name`.
pub open spec fn has_name(m: Seq<(Seq<char>, Seq<char>)>, name: Seq<char>) -> bool {
    exists|i: int| 0 <= i < m.len() && (#[trigger] m[i]).0 == name
}

/// For each session name, the path of its first pane, in the order the
/// names first appear.
pub open spec fn pane_paths_of_lines(ls: Seq<Seq<char>>) -> Seq<(Seq<char>, Seq<char>)>
    decreases ls.len(),
{
    if ls.len() == 0 {
        Seq::empty()
    } else {
        let init = pane_paths_of_lines(ls.drop_last());
        match pane_path_of_line(ls.last()) {
            Some(e) => if has_name(init, e.0) {
                init
            } else {
                init.push(e)
            },
            None => init,
        }
    }
}

/// The path recorded for `name`, if any.
pub open spec fn lookup(m: Seq<(Seq<char>, Seq<char>)>, name: Seq<char>) -> Option<Seq<char>>
    decreases m.len(),
{
    if m.len() == 0 {
        None
    } else if m[0].0 == name {
        Some(m[0].1)
    } else {
        lookup(m.drop_first(), name)
    }
}

/// The sessions with each path replaced by the path of the session's first
/// pane, where one is known.
pub open spec fn with_pane_paths(
    sessions: Seq<(Seq<char>, Seq<char>)>,
    m: Seq<(Seq<char>, Seq<char>)>,
) -> Seq<(Seq<char>, Seq<char>)> {
    Seq::new(
        sessions.len(),
        |i: int|
            match lookup(m, sessions[i].0) {
                Some(p) => (sessions[i].0, p),
                None => sessions[i],
            },
    )
}

/// The pairs of a sequence of string pairs.
pub open spec fn pair_views(v: Seq<(String, String)>) -> Seq<(Seq<char>, Seq<char>)> {
    Seq::new(v.len(), |i: int| (v[i].0@, v[i].1@))
}

// ---------------------------------------------------------------------------
// Panes
/// The window, pane and command on a line of
/// `list-panes -a -F "#{session_name} #{window_index} #{pane_index} #{pane_current_command}"`
/// that belongs to `session`; a missing command reads as empty.
pub open spec fn session_pane_of_line(line: Seq<char>, session: Seq<char>) -> Option<
    (Seq<char>, Seq<char>, Seq<char>),
> {
    let w = words(line);
    if w.len() >= 3 && w[0] == session {
        Some(
            (
                w[1],
                w[2],
                if w.len() >= 4 {
                    w[3]
                } else {
                    Seq::empty()
                },
            ),
        )
    } else {
        None
    }
}

/// The panes of `session` described by the lines, in order.
pub open spec fn session_panes(ls: Seq<Seq<char>>, session: Seq<char>) -> Seq<
    (Seq<char>, Seq<char>, Seq<char>),
>
    decreases ls.len(),
{
    if ls.len() == 0 {
        Seq::empty()
    } else {
        let init = session_panes(ls.drop_last(), session);
        match session_pane_of_line(ls.last(), session) {
            Some(p) => init.push(p),
            None => init,
        }
    }
}

/// The first pane at or after `i` whose command mentions `nvim`.
pub open spec fn first_nvim_from(panes: Seq<(Seq<char>, Seq<char>, Seq<char>)>, i: int) -> Option<int>
    decreases panes.len() - i,
{
    if i < 0 || i >= panes.len() {
        None
    } else if contains(panes[i].2, "nvim"@) {
        Some(i)
    } else {
        first_nvim_from(panes, i + 1)
    }
}

/// The pane to focus: the first one running nvim, or else the last one.
pub open spec fn activation_target(panes: Seq<(Seq<char>, Seq<char>, Seq<char>)>) -> Option<
    (Seq<char>, Seq<char>),
> {
    match first_nvim_from(panes, 0) {
        Some(i) => Some((panes[i].0, panes[i].1)),
        None => if panes.len() > 0 {
            Some((panes.last().0, panes.last().1))
        } else {
            None
        },
    }
}

/// The tmux commands that bring `session` to the front, given the pane listing
/// (or `None` when listing the panes failed): select the target pane's
/// window and the pane itself, then switch the client; with no pane, only
/// switch the client.
pub open spec fn activation_commands(session: Seq<char>, pane_listing: Option<Seq<char>>) -> Seq<
    Seq<Seq<char>>,
> {
    let switch = seq!["switch-client"@, "-t"@, session];
    match pane_listing {
        Some(o) => match activation_target(session_panes(lines(o), session)) {
            Some((w, p)) => seq![
                seq!["select-window"@, "-t"@, window_target_of(session, w)],
                seq!["select-pane"@, "-t"@, pane_target_of(session, w, p)],
                switch,
            ],
            None => seq![switch],
        },
        None => seq![switch],
    }
}

/// A pane that runs `nvim`, from a line of
/// `list-panes -s -t <session> -F "#{window_index} #{pane_index} #{pane_current_command} #{pane_pid}"`.
pub open spec fn candidate_of_line(line: Seq<char>) -> Option<(Seq<char>, Seq<char>, u32)> {
    let w = words(line);
    if w.len() >= 4 && w[2] == "nvim"@ && parse_u32(w[3]) is Some {
        Some((w[0], w[1], parse_u32(w[3])->0))
    } else {
        None
    }
}

/// The panes running nvim, in order.
pub open spec fn candidates_of_lines(ls: Seq<Seq<char>>) -> Seq<(Seq<char>, Seq<char>, u32)>
    decreases ls.len(),
{
    if ls.len() == 0 {
        Seq::empty()
    } else {
        let init = candidates_of_lines(ls.drop_last());
        match candidate_of_line(ls.last()) {
            Some(c) => init.push(c),
            None => init,
        }
    }
}

/// The view of a pane candidate.
pub open spec fn candidate_view(c: NvimPaneCandidate) -> (Seq<char>, Seq<char>, u32) {
    (c.window@, c.pane@, c.pane_pid)
}

/// The first candidate, at or after `i`, whose nvim process is known.
pub open spec fn first_known_from(pids: Seq<Option<u32>>, n: int, i: int) -> Option<int>
    decreases n - i,
{
    if i < 0 || i >= n {
        None
    } else if pids[i] is Some {
        Some(i)
    } else {
        first_known_from(pids, n, i + 1)
    }
}

/// A shell that waits for input in an otherwise empty pane.
pub open spec fn is_shell(command: Seq<char>) -> bool {
    command == "zsh"@ || command == "bash"@ || command == "fish"@ || command == "sh"@
}

/// The first pane at or after line `i` that runs a shell, from
/// `list-panes -t <session>:1 -F "#{pane_index} #{pane_current_command}"`.
pub open spec fn first_shell_pane_from(ls: Seq<Seq<char>>, i: int) -> Option<Seq<char>>
    decreases ls.len() - i,
{
    if i < 0 || i >= ls.len() {
        None
    } else if words(ls[i]).len() >= 2 && is_shell(words(ls[i])[1]) {
        Some(words(ls[i])[0])
    } else {
        first_shell_pane_from(ls, i + 1)
    }
}

/// The shells named in a pane listing that are reused, spelled out.
proof fn lemma_shell_names(shell: Seq<char>)
    requires
        shell == "bash"@ || shell == "zsh"@ || shell == "fish"@ || shell == "sh"@,
    ensures
        shell.len() > 0,
        forall|i: int| 0 <= i < shell.len() ==> !is_ws(#[trigger] shell[i]),
{
    reveal_strlit("bash");
    reveal_strlit("zsh");
    reveal_strlit("fish");
    reveal_strlit("sh");
    if shell == "bash"@ {
        assert(shell =~= seq!['b', 'a', 's', 'h']);
    } else if shell == "zsh"@ {
        assert(shell =~= seq!['z', 's', 'h']);
    } else if shell == "fish"@ {
        assert(shell =~= seq!['f', 'i', 's', 'h']);
    } else {
        assert(shell =~= seq!['s', 'h']);
    }
}

/// A listing of window 1's panes whose first line is `<index> <shell>`, for
/// each of the shells `bash`, `zsh`, `fish` and `sh`, gives that pane to
/// reuse, whatever lines follow: `shell_pane_target` then answers
/// `<session>:1.<index>`.
pub proof fn law_shell_pane_reused(index: Seq<char>, shell: Seq<char>, rest: Seq<char>)
    requires
        shell == "bash"@ || shell == "zsh"@ || shell == "fish"@ || shell == "sh"@,
        index.len() > 0,
        forall|i: int| 0 <= i < index.len() ==> !is_ws(#[trigger] index[i]),
    ensures
        first_shell_pane_from(lines(index + seq![' '] + shell + seq!['\n'] + rest), 0) == Some(index),
{
    lemma_shell_names(shell);
    let line = index + seq![' '] + shell;
    assert(!line.contains('\n')) by {
        if line.contains('\n') {
            let k = choose|k: int| 0 <= k < line.len() && line[k] == '\n';
            if k < index.len() {
                assert(line[k] == index[k]);
            } else if k > index.len() {
                assert(line[k] == shell[k - index.len() - 1]);
            }
        }
    }
    lemma_lines_cons(line, rest);
    assert(line.last() == shell[shell.len() - 1]);
    assert(strip_cr(line) == line);
    lemma_words_space(index, shell);
    lemma_words_single(index);
    lemma_words_single(shell);
    assert(words(line) =~= seq![index, shell]);
    let ls = lines(index + seq![' '] + shell + seq!['\n'] + rest);
    assert(ls[0] == line);
}

/// The command line that opens a target in nvim at its line (1 when unknown).
pub open spec fn nvim_command_of(line: Option<u32>, absolute: Seq<char>) -> Seq<char> {
    "nvim +"@ + decimal(
        match line {
            Some(l) => l as nat,
            None => 1,
        },
    ) + seq![' '] + absolute
}

/// The first session, from line `i` of `list-clients -F "#{client_pid} #{session_name}"`
/// on, of the client with pid `pid`.
pub open spec fn client_session_from(ls: Seq<Seq<char>>, pid: u32, i: int) -> Option<Seq<char>>
    decreases ls.len() - i,
{
    if i < 0 || i >= ls.len() {
        None
    } else if words(ls[i]).len() >= 2 && parse_u32(words(ls[i])[0]) == Some(pid) {
        Some(words(ls[i])[1])
    } else {
        client_session_from(ls, pid, i + 1)
    }
}

/// The first tty, from line `i` of `list-clients -F "#{client_tty} #{client_pid}"`
/// on, of the client with pid `pid`.
pub open spec fn client_tty_from(ls: Seq<Seq<char>>, pid: u32, i: int) -> Option<Seq<char>>
    decreases ls.len() - i,
{
    if i < 0 || i >= ls.len() {
        None
    } else if words(ls[i]).len() >= 2 && parse_u32(words(ls[i])[1]) == Some(pid) {
        Some(words(ls[i])[0])
    } else {
        client_tty_from(ls, pid, i + 1)
    }
}

/// The views of a list of commands.
pub open spec fn commands_view(cs: Seq<Vec<String>>) -> Seq<Seq<Seq<char>>> {
    Seq::new(cs.len(), |i: int| Seq::new(cs[i]@.len(), |j: int| cs[i]@[j]@))
}

/// Drives tmux through a command executor.
pub struct TmuxSessionManager<E: TmuxCommandExecutor> {
    pub executor: E,
}

impl<E: TmuxCommandExecutor> TmuxSessionManager<E> {
    /// A manager that runs tmux through `executor`.
    pub fn new(executor: E) -> (r: Self)
        ensures
            r.executor == executor,
    {
        Self { executor }
    }

    /// A manager that runs tmux through `executor`.
    pub fn with_executor(executor: E) -> (r: Self)
        ensures
            r.executor == executor,
    {
        Self { executor }
    }

    fn run_command(&self, command: &Vec<String>) -> Result<String, TmuxError> {
        let mut args: Vec<&str> = Vec::new();
        let mut i: usize = 0;
        while i < command.len()
            invariant
                i <= command@.len(),
            decreases command.len() - i,
        {
            args.push(command[i].as_str());
            i += 1;
        }
        self.executor.run(args.as_slice())
    }

    /// The sessions described by `list-sessions` output.
    pub fn parse_sessions(output: &str) -> (r: Vec<SessionInfo>)
        ensures
            session_views(r@) == sessions_of_lines(lines(output@)),
    {
        let chars = chars_of(output);
        let ls = lines_exec(&chars);
        let ghost lv = views(ls@);
        let mut r: Vec<SessionInfo> = Vec::new();
        let mut i: usize = 0;
        while i < ls.len()
            invariant
                i <= ls@.len(),
                lv == views(ls@),
                lv == lines(output@),
                session_views(r@) =~= sessions_of_lines(lv.take(i as int)),
            decreases ls.len() - i,
        {
            assert(lv.take(i + 1).drop_last() =~= lv.take(i as int));
            assert(lv.take(i + 1).last() == ls@[i as int]@);
            let t = trim(ls[i].as_slice());
            if t.len() > 0 {
                let space = vec![' '];
                assert(space@ =~= seq![' ']);
                let s = match split_once_exec(&t, &space) {
                    Some((name, path)) => SessionInfo { name: string_of(&name), path: string_of(&path) },
                    None => {
                        let dot = vec!['.'];
                        assert(dot@ =~= seq!['.']);
                        SessionInfo { name: string_of(&t), path: string_of(&dot) }
                    },
                };
                r.push(s);
            }
            i += 1;
            assert(session_views(r@) =~= sessions_of_lines(lv.take(i as int)));
        }
        assert(lv.take(ls@.len() as int) =~= lv);
        r
    }

    /// For each session name in `list-panes` output, the path of its first pane.
    pub fn parse_pane_paths(output: &str) -> (r: Vec<(String, String)>)
        ensures
            pair_views(r@) == pane_paths_of_lines(lines(output@)),
    {
        let chars = chars_of(output);
        let ls = lines_exec(&chars);
        let ghost lv = views(ls@);
        let mut r: Vec<(String, String)> = Vec::new();
        let mut i: usize = 0;
        while i < ls.len()
            invariant
                i <= ls@.len(),
                lv == views(ls@),
                lv == lines(output@),
                pair_views(r@) =~= pane_paths_of_lines(lv.take(i as int)),
            decreases ls.len() - i,
        {
            assert(lv.take(i + 1).drop_last() =~= lv.take(i as int));
            assert(lv.take(i + 1).last() == ls@[i as int]@);
            let t = trim(ls[i].as_slice());
            if t.len() > 0 {
                let space = vec![' '];
                assert(space@ =~= seq![' ']);
                if let Some((name, path)) = split_once_exec(&t, &space) {
                    if !has_entry(&r, &name) {
                        r.push((string_of(&name), string_of(&path)));
                    }
                }
            }
            i += 1;
            assert(pair_views(r@) =~= pane_paths_of_lines(lv.take(i as int)));
        }
        assert(lv.take(ls@.len() as int) =~= lv);
        r
    }

    /// Runs `pane_paths_command` (`list-panes -a -F "#{session_name}
    /// #{pane_current_path}"`); the result is `pane_paths_from_output` of what
    /// it gave (an outside value).
    pub fn collect_pane_paths(&self) -> (r: Result<Vec<(String, String)>, TmuxError>)
        ensures
            exists|output: Result<String, TmuxError>|
                pairs_result_view(r) == #[trigger] pane_paths_outcome(output),
    {
        let output = self.run_command(&pane_paths_command());
        let r = Self::pane_paths_from_output(output);
        assert(pairs_result_view(r) == pane_paths_outcome(output));
        r
    }

}

fn has_entry(m: &Vec<(String, String)>, name: &[char]) -> (r: bool)
    ensures
        r == has_name(pair_views(m@), name@),
{
    let ghost pv = pair_views(m@);
    let mut i: usize = 0;
    while i < m.len()
        invariant
            i <= m@.len(),
            pv == pair_views(m@),
            forall|j: int| 0 <= j < i ==> (#[trigger] pv[j]).0 != name@,
        decreases m.len() - i,
    {
        let key = chars_of(m[i].0.as_str());
        if chars_eq(&key, name) {
            assert(pv[i as int].0 == name@);
            return true;
        }
        i += 1;
    }
    false
}

fn lookup_path(m: &Vec<(String, String)>, name: &str) -> (r: Option<String>)
    ensures
        match r {
            Some(p) => lookup(pair_views(m@), name@) == Some(p@),
            None => lookup(pair_views(m@), name@) is None,
        },
{
    let ghost pv = pair_views(m@);
    let wanted = chars_of(name);
    let mut i: usize = 0;
    assert(pv.skip(0) =~= pv);
    while i < m.len()
        invariant
            i <= m@.len(),
            pv == pair_views(m@),
            wanted@ == name@,
            lookup(pv, name@) == lookup(pv.skip(i as int), name@),
        decreases m.len() - i,
    {
        assert(pv.skip(i as int).drop_first() =~= pv.skip(i + 1));
        let key = chars_of(m[i].0.as_str());
        if chars_eq(&key, &wanted) {
            return Some(m[i].1.clone());
        }
        i += 1;
    }
    None
}

/// The sessions with the paths of their first panes put in.
pub fn apply_pane_paths(sessions: Vec<SessionInfo>, pane_paths: &Vec<(String, String)>) -> (r: Vec<
    SessionInfo,
>)
    ensures
        session_views(r@) == with_pane_paths(session_views(sessions@), pair_views(pane_paths@)),
{
    let ghost sv = session_views(sessions@);
    let mut r: Vec<SessionInfo> = Vec::new();
    let mut i: usize = 0;
    while i < sessions.len()
        invariant
            i <= sessions@.len(),
            sv == session_views(sessions@),
            r@.len() == i,
            forall|k: int| 0 <= k < i ==> #[trigger] r@[k]@ == with_pane_paths(sv, pair_views(pane_paths@))[k],
        decreases sessions.len() - i,
    {
        let name = sessions[i].name.clone();
        let s = match lookup_path(pane_paths, sessions[i].name.as_str()) {
            Some(p) => SessionInfo { name, path: p },
            None => SessionInfo { name, path: sessions[i].path.clone() },
        };
        assert(sessions@[i as int]@ == sv[i as int]);
        assert(s@ == with_pane_paths(sv, pair_views(pane_paths@))[i as int]);
        let ghost before = r@;
        r.push(s);
        assert forall|k: int| 0 <= k < i + 1 implies #[trigger] r@[k]@ == with_pane_paths(sv, pair_views(pane_paths@))[k] by {
            if k < i {
                assert(r@[k] == before[k]);
            }
        }
        i += 1;
    }
    assert(session_views(r@) =~= with_pane_paths(sv, pair_views(pane_paths@)));
    r
}


/// The views of a sequence of character-vector triples.
pub open spec fn triple_views(v: Seq<(Vec<char>, Vec<char>, Vec<char>)>) -> Seq<
    (Seq<char>, Seq<char>, Seq<char>),
> {
    Seq::new(v.len(), |i: int| (v[i].0@, v[i].1@, v[i].2@))
}

/// The view of an optional string.
pub open spec fn opt_view(o: Option<&str>) -> Option<Seq<char>> {
    match o {
        Some(s) => Some(s@),
        None => None,
    }
}

/// The panes of `session` in a `list-panes -a` listing.
fn panes_of_session(listing: &str, session: &[char]) -> (r: Vec<(Vec<char>, Vec<char>, Vec<char>)>)
    ensures
        triple_views(r@) == session_panes(lines(listing@), session@),
{
    let chars = chars_of(listing);
    let ls = lines_exec(&chars);
    let ghost lv = views(ls@);
    let mut r: Vec<(Vec<char>, Vec<char>, Vec<char>)> = Vec::new();
    let mut i: usize = 0;
    while i < ls.len()
        invariant
            i <= ls@.len(),
            lv == views(ls@),
            lv == lines(listing@),
            triple_views(r@) =~= session_panes(lv.take(i as int), session@),
        decreases ls.len() - i,
    {
        assert(lv.take(i + 1).drop_last() =~= lv.take(i as int));
        assert(lv.take(i + 1).last() == ls@[i as int]@);
        let w = words_exec(ls[i].as_slice());
        assert(views(w@) == words(lv[i as int]));
        if w.len() >= 3 && chars_eq(w[0].as_slice(), session) {
            let cmd = if w.len() >= 4 {
                w[3].clone()
            } else {
                Vec::new()
            };
            assert(cmd@ =~= (if views(w@).len() >= 4 { views(w@)[3] } else { Seq::empty() }));
            r.push((w[1].clone(), w[2].clone(), cmd));
        }
        i += 1;
        assert(triple_views(r@) =~= session_panes(lv.take(i as int), session@));
    }
    assert(lv.take(ls@.len() as int) =~= lv);
    r
}

/// The window and pane to focus among the panes.
fn pick_activation_target(panes: &Vec<(Vec<char>, Vec<char>, Vec<char>)>) -> (r: Option<(Vec<char>, Vec<char>)>)
    ensures
        match r {
            Some((w, p)) => activation_target(triple_views(panes@)) == Some((w@, p@)),
            None => activation_target(triple_views(panes@)) is None,
        },
{
    let ghost pv = triple_views(panes@);
    let nvim = chars_of("nvim");
    let mut i: usize = 0;
    while i < panes.len()
        invariant
            i <= panes@.len(),
            pv == triple_views(panes@),
            nvim@ == "nvim"@,
            first_nvim_from(pv, 0) == first_nvim_from(pv, i as int),
        decreases panes.len() - i,
    {
        if contains_exec(panes[i].2.as_slice(), &nvim) {
            return Some((panes[i].0.clone(), panes[i].1.clone()));
        }
        i += 1;
    }
    if panes.len() > 0 {
        let last = panes.len() - 1;
        Some((panes[last].0.clone(), panes[last].1.clone()))
    } else {
        None
    }
}

fn switch_client_command(session: &[char]) -> (r: Vec<String>)
    ensures
        Seq::new(r@.len(), |j: int| r@[j]@) == seq!["switch-client"@, "-t"@, session@],
{
    let r = vec!["switch-client".to_owned(), "-t".to_owned(), string_of(session)];
    assert(Seq::new(r@.len(), |j: int| r@[j]@) =~= seq!["switch-client"@, "-t"@, session@]);
    r
}

/// The tmux commands that bring `session_name` to the front, given the
/// output of `list-panes -a` (`None` when it failed).
pub fn activation_plan(session_name: &str, pane_listing: Option<&str>) -> (r: Vec<Vec<String>>)
    ensures
        commands_view(r@) == activation_commands(session_name@, opt_view(pane_listing)),
{
    let session = chars_of(session_name);
    let switch = switch_client_command(&session);
    let ghost sw = seq!["switch-client"@, "-t"@, session_name@];
    if let Some(listing) = pane_listing {
        let panes = panes_of_session(listing, &session);
        if let Some((w, p)) = pick_activation_target(&panes) {
            let select_window = vec![
                "select-window".to_owned(),
                "-t".to_owned(),
                window_target_chars(&session, &w),
            ];
            let select_pane = vec![
                "select-pane".to_owned(),
                "-t".to_owned(),
                pane_target_chars(&session, &w, &p),
            ];
            let ghost target = activation_target(session_panes(lines(listing@), session_name@));
            assert(target == Some((w@, p@)));
            let ghost c0 = seq!["select-window"@, "-t"@, window_target_of(session_name@, w@)];
            let ghost c1 = seq!["select-pane"@, "-t"@, pane_target_of(session_name@, w@, p@)];
            assert(Seq::new(select_window@.len(), |j: int| select_window@[j]@) =~= c0);
            assert(Seq::new(select_pane@.len(), |j: int| select_pane@[j]@) =~= c1);
            let r = vec![select_window, select_pane, switch];
            assert(commands_view(r@)[0] =~= c0);
            assert(commands_view(r@)[1] =~= c1);
            assert(commands_view(r@)[2] =~= sw);
            assert(activation_commands(session_name@, opt_view(pane_listing)) == seq![c0, c1, sw]);
            assert(commands_view(r@) =~= activation_commands(session_name@, opt_view(pane_listing)));
            return r;
        }
    }
    let r = vec![switch];
    assert(commands_view(r@) =~= activation_commands(session_name@, opt_view(pane_listing)));
    r
}


/// The sessions `list` reports, from the `list-sessions` output and the
/// `list-panes` output (`None` when listing the panes failed).
pub open spec fn listed_sessions(session_output: Seq<char>, pane_output: Option<Seq<char>>) -> Seq<
    (Seq<char>, Seq<char>),
> {
    match pane_output {
        Some(p) => with_pane_paths(
            sessions_of_lines(lines(session_output)),
            pane_paths_of_lines(lines(p)),
        ),
        None => sessions_of_lines(lines(session_output)),
    }
}

/// The index of the first session at or after `i` whose name equals `name`
/// ignoring ASCII case.
pub open spec fn first_named_from(sessions: Seq<(Seq<char>, Seq<char>)>, name: Seq<char>, i: int) -> Option<int>
    decreases sessions.len() - i,
{
    if i < 0 || i >= sessions.len() {
        None
    } else if eq_ignore_ascii_case(sessions[i].0, name) {
        Some(i)
    } else {
        first_named_from(sessions, name, i + 1)
    }
}

/// The first session named `name`, ignoring ASCII case.
pub fn first_session_named(sessions: &Vec<SessionInfo>, name: &str) -> (r: Option<SessionInfo>)
    ensures
        match first_named_from(session_views(sessions@), name@, 0) {
            Some(i) => r matches Some(s) && s@ == sessions@[i]@,
            None => r is None,
        },
{
    let ghost sv = session_views(sessions@);
    let wanted = chars_of(name);
    let mut i: usize = 0;
    while i < sessions.len()
        invariant
            i <= sessions@.len(),
            sv == session_views(sessions@),
            wanted@ == name@,
            first_named_from(sv, name@, 0) == first_named_from(sv, name@, i as int),
        decreases sessions.len() - i,
    {
        let candidate = chars_of(sessions[i].name.as_str());
        if eq_ignore_ascii_case_exec(&candidate, &wanted) {
            let s = SessionInfo { name: sessions[i].name.clone(), path: sessions[i].path.clone() };
            return Some(s);
        }
        i += 1;
    }
    None
}

/// The panes running nvim in a `list-panes -s` listing.
pub fn parse_nvim_candidates(output: &str) -> (r: Vec<NvimPaneCandidate>)
    ensures
        Seq::new(r@.len(), |i: int| candidate_view(r@[i])) == candidates_of_lines(lines(output@)),
{
    let chars = chars_of(output);
    let ls = lines_exec(&chars);
    let ghost lv = views(ls@);
    let nvim = chars_of("nvim");
    let mut r: Vec<NvimPaneCandidate> = Vec::new();
    let mut i: usize = 0;
    while i < ls.len()
        invariant
            i <= ls@.len(),
            lv == views(ls@),
            lv == lines(output@),
            nvim@ == "nvim"@,
            Seq::new(r@.len(), |k: int| candidate_view(r@[k])) =~= candidates_of_lines(lv.take(i as int)),
        decreases ls.len() - i,
    {
        assert(lv.take(i + 1).drop_last() =~= lv.take(i as int));
        assert(lv.take(i + 1).last() == ls@[i as int]@);
        let w = words_exec(ls[i].as_slice());
        assert(views(w@) == words(lv[i as int]));
        if w.len() >= 4 && chars_eq(w[2].as_slice(), &nvim) {
            if let Some(pid) = parse_u32_exec(w[3].as_slice()) {
                r.push(NvimPaneCandidate {
                    window: string_of(w[0].as_slice()),
                    pane: string_of(w[1].as_slice()),
                    pane_pid: pid,
                });
            }
        }
        i += 1;
        assert(Seq::new(r@.len(), |k: int| candidate_view(r@[k])) =~= candidates_of_lines(lv.take(i as int)));
    }
    assert(lv.take(ls@.len() as int) =~= lv);
    r
}

/// The pane to use among the candidates: the first whose nvim process is known
/// (`nvim_pids[i]` is the innermost nvim pid under candidate `i`).
pub fn pick_nvim_pane(
    session_name: &str,
    candidates: &Vec<NvimPaneCandidate>,
    nvim_pids: &Vec<Option<u32>>,
) -> (r: Option<NvimPaneInfo>)
    ensures
        match first_known_from(nvim_pids@, if candidates@.len() < nvim_pids@.len() { candidates@.len() as int } else { nvim_pids@.len() as int }, 0) {
            Some(i) => r matches Some(info) && info.session@ == session_name@ && info.window@
                == candidates@[i].window@ && info.pane@ == candidates@[i].pane@ && Some(info.nvim_pid)
                == nvim_pids@[i],
            None => r is None,
        },
{
    let n: usize = if candidates.len() < nvim_pids.len() {
        candidates.len()
    } else {
        nvim_pids.len()
    };
    let mut i: usize = 0;
    while i < n
        invariant
            i <= n,
            n as int == (if candidates@.len() < nvim_pids@.len() { candidates@.len() as int } else { nvim_pids@.len() as int }),
            first_known_from(nvim_pids@, n as int, 0) == first_known_from(nvim_pids@, n as int, i as int),
        decreases n - i,
    {
        if let Some(pid) = nvim_pids[i] {
            return Some(NvimPaneInfo {
                session: session_name.to_owned(),
                window: candidates[i].window.clone(),
                pane: candidates[i].pane.clone(),
                nvim_pid: pid,
            });
        }
        i += 1;
    }
    None
}

/// The target `<session>:1.<pane>` of the first pane in window 1 that runs a
/// shell, from `list-panes -t <session>:1` output.
pub fn shell_pane_target(session_name: &str, output: &str) -> (r: Option<String>)
    ensures
        match first_shell_pane_from(lines(output@), 0) {
            Some(p) => r matches Some(t) && t@ == session_name@ + ":1."@ + p,
            None => r is None,
        },
{
    let chars = chars_of(output);
    let ls = lines_exec(&chars);
    let ghost lv = views(ls@);
    let zsh = chars_of("zsh");
    let bash = chars_of("bash");
    let fish = chars_of("fish");
    let sh = chars_of("sh");
    let mut i: usize = 0;
    while i < ls.len()
        invariant
            i <= ls@.len(),
            lv == views(ls@),
            lv == lines(output@),
            zsh@ == "zsh"@ && bash@ == "bash"@ && fish@ == "fish"@ && sh@ == "sh"@,
            first_shell_pane_from(lv, 0) == first_shell_pane_from(lv, i as int),
        decreases ls.len() - i,
    {
        let w = words_exec(ls[i].as_slice());
        assert(views(w@) == words(lv[i as int]));
        if w.len() >= 2 {
            let c = w[1].as_slice();
            if chars_eq(c, &zsh) || chars_eq(c, &bash) || chars_eq(c, &fish) || chars_eq(c, &sh) {
                let head = concat(&chars_of(session_name), &chars_of(":1."));
                return Some(string_of(&concat(&head, w[0].as_slice())));
            }
        }
        i += 1;
    }
    None
}

/// The command line `nvim +<line> <file>` that opens a target.
pub fn nvim_command(target: &MaterializedPath) -> (r: String)
    ensures
        r@ == nvim_command_of(target.line, target.absolute@),
{
    let line: u32 = match target.line {
        Some(l) => l,
        None => 1,
    };
    let space = vec![' '];
    assert(space@ =~= seq![' ']);
    let a = concat(&chars_of("nvim +"), &decimal_exec(line));
    let b = concat(&a, &space);
    string_of(&concat(&b, &chars_of(target.absolute.as_str())))
}

/// The session of the client with pid `client_pid`, from
/// `list-clients -F "#{client_pid} #{session_name}"` output.
pub fn session_of_client(output: &str, client_pid: u32) -> (r: Option<String>)
    ensures
        match client_session_from(lines(output@), client_pid, 0) {
            Some(s) => r matches Some(t) && t@ == s,
            None => r is None,
        },
{
    let chars = chars_of(output);
    let ls = lines_exec(&chars);
    let ghost lv = views(ls@);
    let mut i: usize = 0;
    while i < ls.len()
        invariant
            i <= ls@.len(),
            lv == views(ls@),
            lv == lines(output@),
            client_session_from(lv, client_pid, 0) == client_session_from(lv, client_pid, i as int),
        decreases ls.len() - i,
    {
        let w = words_exec(ls[i].as_slice());
        assert(views(w@) == words(lv[i as int]));
        if w.len() >= 2 {
            if parse_u32_exec(w[0].as_slice()) == Some(client_pid) {
                return Some(string_of(w[1].as_slice()));
            }
        }
        i += 1;
    }
    None
}

/// The tty of the client with pid `client_pid`, from
/// `list-clients -F "#{client_tty} #{client_pid}"` output.
pub fn tty_of_client(output: &str, client_pid: u32) -> (r: Option<String>)
    ensures
        match client_tty_from(lines(output@), client_pid, 0) {
            Some(s) => r matches Some(t) && t@ == s,
            None => r is None,
        },
{
    let chars = chars_of(output);
    let ls = lines_exec(&chars);
    let ghost lv = views(ls@);
    let mut i: usize = 0;
    while i < ls.len()
        invariant
            i <= ls@.len(),
            lv == views(ls@),
            lv == lines(output@),
            client_tty_from(lv, client_pid, 0) == client_tty_from(lv, client_pid, i as int),
        decreases ls.len() - i,
    {
        let w = words_exec(ls[i].as_slice());
        assert(views(w@) == words(lv[i as int]));
        if w.len() >= 2 {
            if parse_u32_exec(w[1].as_slice()) == Some(client_pid) {
                return Some(string_of(w[0].as_slice()));
            }
        }
        i += 1;
    }
    None
}


// ---------------------------------------------------------------------------
// What each call gives and which command lines are run
//
// The executor is implemented by the library's users (in the program, by
// running tmux), so what a call returns is an outside value. The functions
// below say, for each possible value, what the manager returns, and which
// command lines it hands to the executor.

/// The text of a command line.
pub open spec fn command_view(c: Vec<String>) -> Seq<Seq<char>> {
    Seq::new(c@.len(), |j: int| c@[j]@)
}

/// The view of a listing result.
pub open spec fn sessions_result_view(r: Result<Vec<SessionInfo>, TmuxError>) -> Result<
    Seq<(Seq<char>, Seq<char>)>,
    TmuxError,
> {
    match r {
        Ok(v) => Ok(session_views(v@)),
        Err(e) => Err(e),
    }
}

/// What `list` returns for the output of `list-sessions` and of
/// `list-panes -a`: the error of a failed `list-sessions`, else the listed
/// sessions (without pane paths when the pane listing failed).
pub open spec fn list_outcome(
    session_output: Result<String, TmuxError>,
    pane_output: Result<String, TmuxError>,
) -> Result<Seq<(Seq<char>, Seq<char>)>, TmuxError> {
    match session_output {
        Err(e) => Err(e),
        Ok(so) => Ok(
            listed_sessions(
                so@,
                match pane_output {
                    Ok(p) => Some(p@),
                    Err(_) => None,
                },
            ),
        ),
    }
}

/// The view of a pane-path result.
pub open spec fn pairs_result_view(r: Result<Vec<(String, String)>, TmuxError>) -> Result<
    Seq<(Seq<char>, Seq<char>)>,
    TmuxError,
> {
    match r {
        Ok(v) => Ok(pair_views(v@)),
        Err(e) => Err(e),
    }
}

/// What `collect_pane_paths` returns for the output of `list-panes -a`.
pub open spec fn pane_paths_outcome(output: Result<String, TmuxError>) -> Result<
    Seq<(Seq<char>, Seq<char>)>,
    TmuxError,
> {
    match output {
        Err(e) => Err(e),
        Ok(p) => Ok(pane_paths_of_lines(lines(p@))),
    }
}

/// The view of an optional-session result.
pub open spec fn opt_session_result_view(r: Result<Option<SessionInfo>, TmuxError>) -> Result<
    Option<(Seq<char>, Seq<char>)>,
    TmuxError,
> {
    match r {
        Ok(o) => Ok(opt_session_view(o)),
        Err(e) => Err(e),
    }
}

/// What `find_session_by_name` returns for a listing result.
pub open spec fn named_outcome(listed: Result<Seq<(Seq<char>, Seq<char>)>, TmuxError>, name: Seq<char>) -> Result<
    Option<(Seq<char>, Seq<char>)>,
    TmuxError,
> {
    match listed {
        Err(e) => Err(e),
        Ok(ss) => Ok(session_named(ss, name)),
    }
}

/// The view of a candidates result.
pub open spec fn candidates_result_view(r: Result<Vec<NvimPaneCandidate>, TmuxError>) -> Result<
    Seq<(Seq<char>, Seq<char>, u32)>,
    TmuxError,
> {
    match r {
        Ok(v) => Ok(Seq::new(v@.len(), |i: int| candidate_view(v@[i]))),
        Err(e) => Err(e),
    }
}

/// What `nvim_pane_candidates` returns for the output of `list-panes -s`.
pub open spec fn candidates_outcome(output: Result<String, TmuxError>) -> Result<
    Seq<(Seq<char>, Seq<char>, u32)>,
    TmuxError,
> {
    match output {
        Err(e) => Err(e),
        Ok(o) => Ok(candidates_of_lines(lines(o@))),
    }
}

/// The view of an optional-string result.
pub open spec fn opt_string_result_view(r: Result<Option<String>, TmuxError>) -> Result<
    Option<Seq<char>>,
    TmuxError,
> {
    match r {
        Ok(o) => Ok(opt_string_view(o)),
        Err(e) => Err(e),
    }
}

/// What `find_empty_shell_pane` returns for the output of the window-1
/// pane listing.
pub open spec fn shell_pane_outcome(session: Seq<char>, output: Result<String, TmuxError>) -> Result<
    Option<Seq<char>>,
    TmuxError,
> {
    match output {
        Err(e) => Err(e),
        Ok(o) => Ok(
            match first_shell_pane_from(lines(o@), 0) {
                Some(p) => Some(session + ":1."@ + p),
                None => None,
            },
        ),
    }
}

/// The result of a call whose output is dropped: its error, or `Ok`.
pub open spec fn unit_outcome(output: Result<String, TmuxError>) -> Result<(), TmuxError> {
    match output {
        Err(e) => Err(e),
        Ok(_) => Ok(()),
    }
}

/// What `open_nvim_in_session` returns: `Ok` when a shell pane was found
/// (whatever typing into it gave), else the result of `new-window`.
pub open spec fn open_outcome(
    shell: Result<Option<Seq<char>>, TmuxError>,
    window_output: Result<String, TmuxError>,
) -> Result<(), TmuxError> {
    match shell {
        Ok(Some(_)) => Ok(()),
        _ => unit_outcome(window_output),
    }
}

/// What `find_session_by_parent_pid` returns for the output of
/// `list-clients` once the client pid is known.
pub open spec fn client_session_outcome(pid: u32, output: Result<String, TmuxError>) -> Result<
    Option<Seq<char>>,
    TmuxError,
> {
    match output {
        Err(e) => Err(e),
        Ok(o) => Ok(client_session_from(lines(o@), pid, 0)),
    }
}

/// The keys typed into a shell pane: `cd <root> && nvim +<line> <file>`.
pub open spec fn open_keys_of(root: Seq<char>, line: Option<u32>, absolute: Seq<char>) -> Seq<char> {
    "cd "@ + root + " && "@ + nvim_command_of(line, absolute)
}

/// The command that opens the target: keys sent to the shell pane when there
/// is one, else a new window starting in the root.
pub open spec fn open_command_of(
    session: Seq<char>,
    root: Seq<char>,
    line: Option<u32>,
    absolute: Seq<char>,
    shell_pane: Option<Seq<char>>,
) -> Seq<Seq<char>> {
    match shell_pane {
        Some(p) => seq!["send-keys"@, "-t"@, p, open_keys_of(root, line, absolute), "Enter"@],
        None => seq!["new-window"@, "-t"@, session, "-c"@, root, nvim_command_of(line, absolute)],
    }
}

/// The listing of window 1's panes: `list-panes -t <session>:1 -F ..`.
pub open spec fn shell_listing_command_of(session: Seq<char>) -> Seq<Seq<char>> {
    seq!["list-panes"@, "-t"@, session + ":1"@, "-F"@, "#{pane_index} #{pane_current_command}"@]
}

/// The command that starts a session: `new-session -d -s <name> -c <root> <nvim>`.
pub open spec fn spawn_command_of(name: Seq<char>, root: Seq<char>, line: Option<u32>, absolute: Seq<char>) -> Seq<
    Seq<char>,
> {
    seq!["new-session"@, "-d"@, "-s"@, name, "-c"@, root, nvim_command_of(line, absolute)]
}

/// The commands that focus a pane: select its window, then the pane.
pub open spec fn select_commands_of(session: Seq<char>, window: Seq<char>, pane: Seq<char>) -> Seq<
    Seq<Seq<char>>,
> {
    seq![
        seq!["select-window"@, "-t"@, window_target_of(session, window)],
        seq!["select-pane"@, "-t"@, pane_target_of(session, window, pane)],
    ]
}

/// The command that switches the client on a tty to a session.
pub open spec fn switch_tty_command_of(tty: Seq<char>, session: Seq<char>) -> Seq<Seq<char>> {
    seq!["switch-client"@, "-c"@, tty, "-t"@, session]
}

/// The keys `cd <root> && nvim +<line> <file>`.
pub fn open_keys(root_path: &str, target: &MaterializedPath) -> (r: String)
    ensures
        r@ == open_keys_of(root_path@, target.line, target.absolute@),
{
    let nvim_cmd = nvim_command(target);
    let a = concat(&chars_of("cd "), &chars_of(root_path));
    let b = concat(&a, &chars_of(" && "));
    string_of(&concat(&b, &chars_of(nvim_cmd.as_str())))
}

/// The command that opens the target in the session.
pub fn open_command(session_name: &str, root_path: &str, target: &MaterializedPath, shell_pane: Option<&str>) -> (r:
    Vec<String>)
    ensures
        command_view(r) == open_command_of(
            session_name@,
            root_path@,
            target.line,
            target.absolute@,
            opt_view(shell_pane),
        ),
{
    let r = match shell_pane {
        Some(p) => vec![
            "send-keys".to_owned(),
            "-t".to_owned(),
            p.to_owned(),
            open_keys(root_path, target),
            "Enter".to_owned(),
        ],
        None => vec![
            "new-window".to_owned(),
            "-t".to_owned(),
            session_name.to_owned(),
            "-c".to_owned(),
            root_path.to_owned(),
            nvim_command(target),
        ],
    };
    assert(command_view(r) =~= open_command_of(
        session_name@,
        root_path@,
        target.line,
        target.absolute@,
        opt_view(shell_pane),
    ));
    r
}

/// The listing of the panes of window 1 of a session.
pub fn shell_listing_command(session_name: &str) -> (r: Vec<String>)
    ensures
        command_view(r) == shell_listing_command_of(session_name@),
{
    let window = string_of(&concat(&chars_of(session_name), &chars_of(":1")));
    let r = vec![
        "list-panes".to_owned(),
        "-t".to_owned(),
        window,
        "-F".to_owned(),
        "#{pane_index} #{pane_current_command}".to_owned(),
    ];
    assert(command_view(r) =~= shell_listing_command_of(session_name@));
    r
}

/// The command that starts session `name` in `root_path` with nvim on the target.
pub fn spawn_command(name: &str, root_path: &str, target: &MaterializedPath) -> (r: Vec<String>)
    ensures
        command_view(r) == spawn_command_of(name@, root_path@, target.line, target.absolute@),
{
    let r = vec![
        "new-session".to_owned(),
        "-d".to_owned(),
        "-s".to_owned(),
        name.to_owned(),
        "-c".to_owned(),
        root_path.to_owned(),
        nvim_command(target),
    ];
    assert(command_view(r) =~= spawn_command_of(name@, root_path@, target.line, target.absolute@));
    r
}

/// The commands that focus an nvim pane.
pub fn select_commands(nvim_pane: &NvimPaneInfo) -> (r: Vec<Vec<String>>)
    ensures
        commands_view(r@) == select_commands_of(nvim_pane.session@, nvim_pane.window@, nvim_pane.pane@),
{
    let w = vec!["select-window".to_owned(), "-t".to_owned(), nvim_pane.window_target()];
    let p = vec!["select-pane".to_owned(), "-t".to_owned(), nvim_pane.pane_target()];
    let ghost sw = seq!["select-window"@, "-t"@, window_target_of(nvim_pane.session@, nvim_pane.window@)];
    let ghost sp = seq![
        "select-pane"@,
        "-t"@,
        pane_target_of(nvim_pane.session@, nvim_pane.window@, nvim_pane.pane@),
    ];
    assert(command_view(w) =~= sw);
    assert(command_view(p) =~= sp);
    let r = vec![w, p];
    assert(commands_view(r@)[0] =~= sw);
    assert(commands_view(r@)[1] =~= sp);
    assert(commands_view(r@) =~= select_commands_of(nvim_pane.session@, nvim_pane.window@, nvim_pane.pane@));
    r
}

/// The command that switches the client on `tty` to `session_name`.
pub fn switch_tty_command(tty: &str, session_name: &str) -> (r: Vec<String>)
    ensures
        command_view(r) == switch_tty_command_of(tty@, session_name@),
{
    let r = vec![
        "switch-client".to_owned(),
        "-c".to_owned(),
        tty.to_owned(),
        "-t".to_owned(),
        session_name.to_owned(),
    ];
    assert(command_view(r) =~= switch_tty_command_of(tty@, session_name@));
    r
}

/// `list-sessions -F "#{session_name} #{session_path}"`.
pub open spec fn list_sessions_command_of() -> Seq<Seq<char>> {
    seq!["list-sessions"@, "-F"@, "#{session_name} #{session_path}"@]
}

/// `list-panes -a -F "#{session_name} #{pane_current_path}"`.
pub open spec fn pane_paths_command_of() -> Seq<Seq<char>> {
    seq!["list-panes"@, "-a"@, "-F"@, "#{session_name} #{pane_current_path}"@]
}

/// `list-panes -a -F "#{session_name} #{window_index} #{pane_index} #{pane_current_command}"`.
pub open spec fn activation_listing_command_of() -> Seq<Seq<char>> {
    seq!["list-panes"@, "-a"@, "-F"@, "#{session_name} #{window_index} #{pane_index} #{pane_current_command}"@]
}

/// `list-panes -s -t <session> -F "#{window_index} #{pane_index} #{pane_current_command} #{pane_pid}"`.
pub open spec fn candidates_command_of(session: Seq<char>) -> Seq<Seq<char>> {
    seq![
        "list-panes"@,
        "-s"@,
        "-t"@,
        session,
        "-F"@,
        "#{window_index} #{pane_index} #{pane_current_command} #{pane_pid}"@,
    ]
}

/// `list-clients -F "#{client_pid} #{session_name}"`.
pub open spec fn client_sessions_command_of() -> Seq<Seq<char>> {
    seq!["list-clients"@, "-F"@, "#{client_pid} #{session_name}"@]
}

/// `list-clients -F "#{client_tty} #{client_pid}"`.
pub open spec fn client_ttys_command_of() -> Seq<Seq<char>> {
    seq!["list-clients"@, "-F"@, "#{client_tty} #{client_pid}"@]
}

/// The listing of the sessions with their paths.
pub fn list_sessions_command() -> (r: Vec<String>)
    ensures
        command_view(r) == list_sessions_command_of(),
{
    let r = vec!["list-sessions".to_owned(), "-F".to_owned(), "#{session_name} #{session_path}".to_owned()];
    assert(command_view(r) =~= list_sessions_command_of());
    r
}

/// The listing of every pane with its session and current path.
pub fn pane_paths_command() -> (r: Vec<String>)
    ensures
        command_view(r) == pane_paths_command_of(),
{
    let r = vec![
        "list-panes".to_owned(),
        "-a".to_owned(),
        "-F".to_owned(),
        "#{session_name} #{pane_current_path}".to_owned(),
    ];
    assert(command_view(r) =~= pane_paths_command_of());
    r
}

/// The listing of every pane with its session, window, index and command.
pub fn activation_listing_command() -> (r: Vec<String>)
    ensures
        command_view(r) == activation_listing_command_of(),
{
    let r = vec![
        "list-panes".to_owned(),
        "-a".to_owned(),
        "-F".to_owned(),
        "#{session_name} #{window_index} #{pane_index} #{pane_current_command}".to_owned(),
    ];
    assert(command_view(r) =~= activation_listing_command_of());
    r
}

/// The listing of a session's panes with window, index, command and pid.
pub fn candidates_command(session_name: &str) -> (r: Vec<String>)
    ensures
        command_view(r) == candidates_command_of(session_name@),
{
    let r = vec![
        "list-panes".to_owned(),
        "-s".to_owned(),
        "-t".to_owned(),
        session_name.to_owned(),
        "-F".to_owned(),
        "#{window_index} #{pane_index} #{pane_current_command} #{pane_pid}".to_owned(),
    ];
    assert(command_view(r) =~= candidates_command_of(session_name@));
    r
}

/// The listing of the clients with their pids and sessions.
pub fn client_sessions_command() -> (r: Vec<String>)
    ensures
        command_view(r) == client_sessions_command_of(),
{
    let r = vec!["list-clients".to_owned(), "-F".to_owned(), "#{client_pid} #{session_name}".to_owned()];
    assert(command_view(r) =~= client_sessions_command_of());
    r
}

/// The listing of the clients with their ttys and pids.
pub fn client_ttys_command() -> (r: Vec<String>)
    ensures
        command_view(r) == client_ttys_command_of(),
{
    let r = vec!["list-clients".to_owned(), "-F".to_owned(), "#{client_tty} #{client_pid}".to_owned()];
    assert(command_view(r) =~= client_ttys_command_of());
    r
}

/// The sessions tmux knows.
pub trait SessionInventory {
    /// All sessions.
    fn list(&self) -> Result<Vec<SessionInfo>, TmuxError>;

    /// The first session whose name equals `name` ignoring ASCII case.
    fn find_session_by_name(&self, name: &str) -> Result<Option<SessionInfo>, TmuxError>;
}

/// Starts new sessions.
pub trait SessionProvisioner {
    /// Starts a detached session `name` in `root_path` running nvim on the target.
    fn spawn(&self, name: &str, root_path: &str, target: &MaterializedPath) -> Result<
        SessionInfo,
        TmuxError,
    >;
}

/// The view of an optional string.
pub open spec fn opt_string_view(o: Option<String>) -> Option<Seq<char>> {
    match o {
        Some(s) => Some(s@),
        None => None,
    }
}

/// The pid of the tmux client that a terminal's `pstree -p` output names.
pub open spec fn kitty_client_pid(kitty: (u32, Option<String>)) -> Option<u32> {
    match kitty.1 {
        Some(t) => pid_of_capture(regex_first_capture(tmux_client_pattern(), t@)),
        None => None,
    }
}

/// The view of an optional session.
pub open spec fn opt_session_view(o: Option<SessionInfo>) -> Option<(Seq<char>, Seq<char>)> {
    match o {
        Some(s) => Some(s@),
        None => None,
    }
}

/// The session among `sessions` whose name is the first to equal `name`
/// ignoring ASCII case.
pub open spec fn session_named(sessions: Seq<(Seq<char>, Seq<char>)>, name: Seq<char>) -> Option<
    (Seq<char>, Seq<char>),
> {
    match first_named_from(sessions, name, 0) {
        Some(i) => Some(sessions[i]),
        None => None,
    }
}

impl<E: TmuxCommandExecutor> TmuxSessionManager<E> {
    /// What `list` returns for the output of `list-sessions` and the pane
    /// paths collected after it: the error of a failed `list-sessions`, else
    /// its sessions, each with the path of its first pane where one is known.
    pub fn sessions_from_outputs(
        session_output: Result<String, TmuxError>,
        pane_paths: Result<Vec<(String, String)>, TmuxError>,
    ) -> (r: Result<Vec<SessionInfo>, TmuxError>)
        ensures
            match session_output {
                Err(e) => r == Err::<Vec<SessionInfo>, TmuxError>(e),
                Ok(so) => sessions_result_view(r) == Ok::<Seq<(Seq<char>, Seq<char>)>, TmuxError>(
                    match pane_paths {
                        Ok(p) => with_pane_paths(sessions_of_lines(lines(so@)), pair_views(p@)),
                        Err(_) => sessions_of_lines(lines(so@)),
                    },
                ),
            },
    {
        match session_output {
            Err(e) => Err(e),
            Ok(so) => {
                let sessions = Self::parse_sessions(so.as_str());
                match pane_paths {
                    Ok(p) => Ok(apply_pane_paths(sessions, &p)),
                    Err(_) => Ok(sessions),
                }
            },
        }
    }

    /// What `collect_pane_paths` returns for the output of `list-panes -a`.
    pub fn pane_paths_from_output(output: Result<String, TmuxError>) -> (r: Result<
        Vec<(String, String)>,
        TmuxError,
    >)
        ensures
            pairs_result_view(r) == pane_paths_outcome(output),
    {
        match output {
            Err(e) => Err(e),
            Ok(o) => Ok(Self::parse_pane_paths(o.as_str())),
        }
    }

    /// What `find_session_by_name` returns for what `list` returned.
    pub fn session_named_from(listed: Result<Vec<SessionInfo>, TmuxError>, name: &str) -> (r: Result<
        Option<SessionInfo>,
        TmuxError,
    >)
        ensures
            opt_session_result_view(r) == named_outcome(sessions_result_view(listed), name@),
    {
        match listed {
            Err(e) => Err(e),
            Ok(sessions) => {
                let found = first_session_named(&sessions, name);
                proof {
                    lemma_first_named_from(session_views(sessions@), name@, 0);
                }
                Ok(found)
            },
        }
    }

    /// What `nvim_pane_candidates` returns for the output of `list-panes -s`.
    pub fn candidates_from_output(output: Result<String, TmuxError>) -> (r: Result<
        Vec<NvimPaneCandidate>,
        TmuxError,
    >)
        ensures
            candidates_result_view(r) == candidates_outcome(output),
    {
        match output {
            Err(e) => Err(e),
            Ok(o) => Ok(parse_nvim_candidates(o.as_str())),
        }
    }

    /// What `find_empty_shell_pane` returns for the output of the listing of
    /// window 1's panes.
    pub fn shell_pane_from_output(session_name: &str, output: Result<String, TmuxError>) -> (r: Result<
        Option<String>,
        TmuxError,
    >)
        ensures
            opt_string_result_view(r) == shell_pane_outcome(session_name@, output),
    {
        match output {
            Err(e) => Err(e),
            Ok(o) => Ok(shell_pane_target(session_name, o.as_str())),
        }
    }

    /// What `find_session_by_parent_pid` returns for the output of
    /// `list-clients` once the client pid is known.
    pub fn client_session_from_output(client_pid: u32, output: Result<String, TmuxError>) -> (r: Result<
        Option<String>,
        TmuxError,
    >)
        ensures
            opt_string_result_view(r) == client_session_outcome(client_pid, output),
    {
        match output {
            Err(e) => Err(e),
            Ok(o) => Ok(session_of_client(o.as_str(), client_pid)),
        }
    }

    /// The result of a call whose output is dropped.
    pub fn unit_from_output(output: Result<String, TmuxError>) -> (r: Result<(), TmuxError>)
        ensures
            r == unit_outcome(output),
    {
        match output {
            Err(e) => Err(e),
            Ok(_) => Ok(()),
        }
    }

    /// What `spawn` returns for the output of `new-session`.
    pub fn spawned_from_output(name: &str, root_path: &str, output: Result<String, TmuxError>) -> (r: Result<
        SessionInfo,
        TmuxError,
    >)
        ensures
            spawned(r, name@, root_path@, output),
    {
        match output {
            Err(e) => Err(e),
            Ok(_) => Ok(SessionInfo { name: name.to_owned(), path: root_path.to_owned() }),
        }
    }
}

/// What `spawn` returns for the output of `new-session`: its error, or the
/// session named `name` in `root`.
pub open spec fn spawned(
    r: Result<SessionInfo, TmuxError>,
    name: Seq<char>,
    root: Seq<char>,
    output: Result<String, TmuxError>,
) -> bool {
    match output {
        Err(e) => r == Err::<SessionInfo, TmuxError>(e),
        Ok(_) => r matches Ok(s) && s.name@ == name && s.path@ == root,
    }
}

/// A lookup for a terminal can have found `entry`: nothing, or the session
/// that some `list-clients` output gives for the terminal's client.
pub open spec fn possible_lookup(kitty: (u32, Option<String>), entry: Option<Seq<char>>) -> bool {
    match entry {
        None => true,
        Some(s) => match kitty_client_pid(kitty) {
            Some(pid) => exists|out: Seq<char>| #[trigger] client_session_from(lines(out), pid, 0) == Some(s),
            None => false,
        },
    }
}

/// The first terminal, at index `i` or later, whose lookup found a session
/// named `name` ignoring ASCII case.
pub open spec fn first_attached_from(found: Seq<Option<Seq<char>>>, name: Seq<char>, i: int) -> Option<int>
    decreases found.len() - i,
{
    if i < 0 || i >= found.len() {
        None
    } else if found[i] matches Some(s) && eq_ignore_ascii_case(s, name) {
        Some(i)
    } else {
        first_attached_from(found, name, i + 1)
    }
}

proof fn lemma_first_attached_skip(found: Seq<Option<Seq<char>>>, name: Seq<char>, a: int, b: int)
    requires
        0 <= a <= b,
        forall|j: int| a <= j < b ==> !(#[trigger] found[j] matches Some(s) && eq_ignore_ascii_case(s, name)),
    ensures
        first_attached_from(found, name, a) == first_attached_from(found, name, b),
    decreases b - a,
{
    if a < b {
        lemma_first_attached_skip(found, name, a + 1, b);
    }
}

/// What a lookup found: the session it gave, else nothing.
pub open spec fn found_of(lookup: Result<Option<String>, TmuxError>) -> Option<Seq<char>> {
    match lookup {
        Ok(Some(s)) => Some(s@),
        _ => None,
    }
}

/// What each lookup found.
pub open spec fn founds(lookups: Seq<Result<Option<String>, TmuxError>>) -> Seq<Option<Seq<char>>> {
    Seq::new(lookups.len(), |i: int| found_of(lookups[i]))
}

/// The pid of the first terminal whose lookup found `name` ignoring ASCII
/// case (the `k`-th lookup belongs to the `k`-th terminal).
pub open spec fn first_attached_pid(
    kitties: Seq<(u32, Option<String>)>,
    found: Seq<Option<Seq<char>>>,
    name: Seq<char>,
) -> Option<u32> {
    match first_attached_from(found, name, 0) {
        Some(k) => if k < kitties.len() {
            Some(kitties[k].0)
        } else {
            None
        },
        None => None,
    }
}

proof fn lemma_first_attached_bounds(found: Seq<Option<Seq<char>>>, name: Seq<char>, i: int)
    ensures
        first_attached_from(found, name, i) matches Some(k) ==> i <= k < found.len(),
    decreases found.len() - i,
{
    if 0 <= i < found.len() {
        lemma_first_attached_skip(found, name, i, i);
        if !(found[i] matches Some(s) && eq_ignore_ascii_case(s, name)) {
            lemma_first_attached_bounds(found, name, i + 1);
        }
    }
}

/// Whether a lookup found `wanted`, ignoring ASCII case.
fn lookup_matches(lookup: &Result<Option<String>, TmuxError>, wanted: &Vec<char>) -> (b: bool)
    ensures
        b == (found_of(*lookup) matches Some(s) && eq_ignore_ascii_case(s, wanted@)),
{
    match lookup {
        Ok(Some(attached)) => eq_ignore_ascii_case_exec(&chars_of(attached.as_str()), wanted),
        _ => false,
    }
}

/// The pid of the first terminal, in order, whose lookup (`lookups[k]`
/// belongs to `kitties[k]`) found `session_name` ignoring ASCII case;
/// failed lookups and lookups that found nothing do not match.
pub fn first_attached_kitty(
    kitties: &Vec<(u32, Option<String>)>,
    lookups: &Vec<Result<Option<String>, TmuxError>>,
    session_name: &str,
) -> (r: Option<u32>)
    ensures
        r == first_attached_pid(kitties@, founds(lookups@), session_name@),
{
    let ghost f = founds(lookups@);
    let wanted = chars_of(session_name);
    let mut i: usize = 0;
    while i < lookups.len() && i < kitties.len()
        invariant
            i <= lookups@.len(),
            i <= kitties@.len(),
            f == founds(lookups@),
            wanted@ == session_name@,
            first_attached_from(f, session_name@, 0) == first_attached_from(f, session_name@, i as int),
        decreases lookups.len() - i,
    {
        assert(f[i as int] == found_of(lookups@[i as int]));
        if lookup_matches(&lookups[i], &wanted) {
            return Some(kitties[i].0);
        }
        proof {
            lemma_first_attached_skip(f, session_name@, i as int, i + 1);
        }
        i += 1;
    }
    proof {
        lemma_first_attached_bounds(f, session_name@, i as int);
    }
    None
}

impl<E: TmuxCommandExecutor> SessionInventory for TmuxSessionManager<E> {
    /// Runs `list_sessions_command` (`list-sessions -F "#{session_name}
    /// #{session_path}"`) and, when it succeeds, collects the pane paths
    /// (`collect_pane_paths`); the result is
    /// `sessions_from_outputs` of what the two calls gave (outside values).
    fn list(&self) -> (r: Result<Vec<SessionInfo>, TmuxError>)
        ensures
            exists|so: Result<String, TmuxError>, po: Result<String, TmuxError>|
                sessions_result_view(r) == #[trigger] list_outcome(so, po),
    {
        let session_output = self.run_command(&list_sessions_command());
        let pane_paths = match &session_output {
            Ok(_) => self.collect_pane_paths(),
            Err(e) => Err(TmuxError { message: e.message.clone() }),
        };
        let ghost given = session_output;
        let ghost paths = pane_paths;
        let r = Self::sessions_from_outputs(session_output, pane_paths);
        proof {
            let session_output = given;
            let pane_paths = paths;
            match session_output {
                Ok(so) => {
                    let po = choose|po: Result<String, TmuxError>|
                        pairs_result_view(pane_paths) == #[trigger] pane_paths_outcome(po);
                    assert(sessions_result_view(r) == list_outcome(session_output, po));
                },
                Err(_) => {
                    assert(sessions_result_view(r) == list_outcome(session_output, session_output));
                },
            }
        }
        r
    }

    /// Lists the sessions; the result is `session_named_from` of that.
    fn find_session_by_name(&self, name: &str) -> (r: Result<Option<SessionInfo>, TmuxError>)
        ensures
            exists|so: Result<String, TmuxError>, po: Result<String, TmuxError>|
                opt_session_result_view(r) == named_outcome(#[trigger] list_outcome(so, po), name@),
    {
        let listed = self.list();
        let r = Self::session_named_from(listed, name);
        proof {
            let (so, po) = choose|so: Result<String, TmuxError>, po: Result<String, TmuxError>|
                sessions_result_view(listed) == #[trigger] list_outcome(so, po);
            assert(opt_session_result_view(r) == named_outcome(list_outcome(so, po), name@));
        }
        r
    }
}

impl<E: TmuxCommandExecutor> SessionProvisioner for TmuxSessionManager<E> {
    /// Runs `spawn_command` (`new-session -d -s <name> -c <root_path> "nvim
    /// +<line> <file>"`); the result is `spawned_from_output` of what it gave.
    fn spawn(&self, name: &str, root_path: &str, target: &MaterializedPath) -> (r: Result<
        SessionInfo,
        TmuxError,
    >)
        ensures
            exists|output: Result<String, TmuxError>| #[trigger] spawned(r, name@, root_path@, output),
    {
        let command = spawn_command(name, root_path, target);
        let output = self.run_command(&command);
        let r = Self::spawned_from_output(name, root_path, output);
        assert(spawned(r, name@, root_path@, output));
        r
    }
}

impl<E: TmuxCommandExecutor> TmuxSessionManager<E> {
    /// Brings `session_name` to the front: runs `activation_listing_command`
    /// (`list-panes -a` with session, window, pane and command), then each command of `activation_plan` for its output (`None` when it
    /// failed): the nvim pane's (else the last pane's) window and pane are
    /// selected, then the client is switched. What the calls return is not
    /// looked at, so the result is always `Ok`.
    pub fn activate_session(&self, session_name: &str) -> (r: Result<(), TmuxError>)
        ensures
            r is Ok,
    {
        let listing = self.run_command(&activation_listing_command());
        let plan = match &listing {
            Ok(o) => activation_plan(session_name, Some(o.as_str())),
            Err(_) => activation_plan(session_name, None),
        };
        let mut i: usize = 0;
        while i < plan.len()
            invariant
                i <= plan@.len(),
            decreases plan.len() - i,
        {
            let _ = self.run_command(&plan[i]);
            i += 1;
        }
        Ok(())
    }

    /// Runs the two commands of `select_commands` (select the pane's window,
    /// then the pane); what they return is not looked at.
    pub fn select_pane(&self, nvim_pane: &NvimPaneInfo) -> (r: Result<(), TmuxError>)
        ensures
            r is Ok,
    {
        let commands = select_commands(nvim_pane);
        let mut i: usize = 0;
        while i < commands.len()
            invariant
                i <= commands@.len(),
            decreases commands.len() - i,
        {
            let _ = self.run_command(&commands[i]);
            i += 1;
        }
        Ok(())
    }

    /// Runs `candidates_command` (`list-panes -s -t <session_name> -F
    /// "#{window_index} #{pane_index} #{pane_current_command} #{pane_pid}"`);
    /// the result is
    /// `candidates_from_output` of what it gave.
    pub fn nvim_pane_candidates(&self, session_name: &str) -> (r: Result<Vec<NvimPaneCandidate>, TmuxError>)
        ensures
            exists|output: Result<String, TmuxError>|
                candidates_result_view(r) == #[trigger] candidates_outcome(output),
    {
        let output = self.run_command(&candidates_command(session_name));
        let r = Self::candidates_from_output(output);
        assert(candidates_result_view(r) == candidates_outcome(output));
        r
    }

    /// The nvim pane to use: the first candidate whose nvim process is known
    /// (`nvim_pids[i]` belongs to `candidates[i]`).
    pub fn find_nvim_pane(
        &self,
        session_name: &str,
        candidates: &Vec<NvimPaneCandidate>,
        nvim_pids: &Vec<Option<u32>>,
    ) -> (r: Option<NvimPaneInfo>)
        ensures
            match first_known_from(nvim_pids@, if candidates@.len() < nvim_pids@.len() { candidates@.len() as int } else { nvim_pids@.len() as int }, 0) {
                Some(i) => r matches Some(info) && info.session@ == session_name@ && info.window@
                    == candidates@[i].window@ && info.pane@ == candidates@[i].pane@ && Some(info.nvim_pid)
                    == nvim_pids@[i],
                None => r is None,
            },
    {
        pick_nvim_pane(session_name, candidates, nvim_pids)
    }

    /// Runs `shell_listing_command` (the panes of window 1); the result is
    /// `shell_pane_from_output` of what it gave.
    pub fn find_empty_shell_pane(&self, session_name: &str) -> (r: Result<Option<String>, TmuxError>)
        ensures
            exists|output: Result<String, TmuxError>|
                opt_string_result_view(r) == #[trigger] shell_pane_outcome(session_name@, output),
    {
        let command = shell_listing_command(session_name);
        let output = self.run_command(&command);
        let r = Self::shell_pane_from_output(session_name, output);
        assert(opt_string_result_view(r) == shell_pane_outcome(session_name@, output));
        r
    }

    /// Opens the target in nvim within the session: looks for a shell pane in
    /// window 1 (`find_empty_shell_pane`) and runs `open_command` for what it
    /// found: keys `cd <root> && nvim +<line> <file>` typed into that pane (its
    /// result not looked at), else a new window starting in `root_path`,
    /// whose error is returned.
    pub fn open_nvim_in_session(
        &self,
        session_name: &str,
        root_path: &str,
        target: &MaterializedPath,
    ) -> (r: Result<(), TmuxError>)
        ensures
            exists|listing: Result<String, TmuxError>, window_output: Result<String, TmuxError>|
                r == #[trigger] open_outcome(shell_pane_outcome(session_name@, listing), window_output),
    {
        let shell = self.find_empty_shell_pane(session_name);
        let ghost listing = choose|listing: Result<String, TmuxError>|
            opt_string_result_view(shell) == #[trigger] shell_pane_outcome(session_name@, listing);
        match &shell {
            Ok(Some(pane)) => {
                let command = open_command(session_name, root_path, target, Some(pane.as_str()));
                let output = self.run_command(&command);
                assert(Ok::<(), TmuxError>(()) == open_outcome(shell_pane_outcome(session_name@, listing), output));
                Ok(())
            },
            _ => {
                let command = open_command(session_name, root_path, target, None);
                let output = self.run_command(&command);
                let r = Self::unit_from_output(output);
                assert(r == open_outcome(shell_pane_outcome(session_name@, listing), output));
                r
            },
        }
    }

    /// The session that the tmux client under a terminal is attached to,
    /// given the terminal's `pstree -p` output (`None` when pstree failed):
    /// without a client pid, `Ok(None)` and no call; else
    /// `client_sessions_command` (`list-clients -F "#{client_pid}
    /// #{session_name}"`) is run and the result is
    /// `client_session_from_output` of what it gave.
    pub fn find_session_by_parent_pid(&self, pstree_output: Option<&str>) -> (r: Result<
        Option<String>,
        TmuxError,
    >)
        ensures
            match pstree_output {
                Some(t) => match pid_of_capture(regex_first_capture(tmux_client_pattern(), t@)) {
                    Some(pid) => exists|output: Result<String, TmuxError>|
                        opt_string_result_view(r) == #[trigger] client_session_outcome(pid, output),
                    None => r == Ok::<Option<String>, TmuxError>(None),
                },
                None => r == Ok::<Option<String>, TmuxError>(None),
            },
    {
        let tree = match pstree_output {
            Some(t) => t,
            None => return Ok(None),
        };
        let client_pid = match extract_tmux_client_pid(tree) {
            Some(pid) => pid,
            None => return Ok(None),
        };
        let output = self.run_command(&client_sessions_command());
        let r = Self::client_session_from_output(client_pid, output);
        assert(opt_string_result_view(r) == client_session_outcome(client_pid, output));
        r
    }

    /// The first terminal pid, among `kitties` (pid and `pstree -p` output of
    /// each) and in their order, whose tmux client is attached to
    /// `session_name` (ignoring ASCII case). The terminals are looked up one
    /// after another with `find_session_by_parent_pid` until one matches, a
    /// failed lookup counting as no match; the answer is `first_attached_kitty`
    /// of the lookups made.
    pub fn find_kitty_for_session(
        &self,
        session_name: &str,
        kitties: &Vec<(u32, Option<String>)>,
    ) -> (r: Result<Option<u32>, TmuxError>)
        ensures
            r is Ok,
            exists|lookups: Seq<Result<Option<String>, TmuxError>>|
                lookups.len() <= kitties@.len()
                && (forall|k: int| 0 <= k < lookups.len() ==> possible_lookup(kitties@[k], #[trigger] found_of(lookups[k])))
                && r == Ok::<Option<u32>, TmuxError>(#[trigger] first_attached_pid(kitties@, founds(lookups), session_name@))
                && (first_attached_pid(kitties@, founds(lookups), session_name@) is None ==> lookups.len() == kitties@.len()),
            (forall|i: int| 0 <= i < kitties@.len() ==> kitty_client_pid(#[trigger] kitties@[i]) is None)
                ==> r == Ok::<Option<u32>, TmuxError>(None),
    {
        let wanted = chars_of(session_name);
        let mut lookups: Vec<Result<Option<String>, TmuxError>> = Vec::new();
        let mut done = false;
        let mut i: usize = 0;
        while i < kitties.len() && !done
            invariant
                i <= kitties@.len(),
                wanted@ == session_name@,
                lookups@.len() == i,
                forall|k: int| 0 <= k < i ==> possible_lookup(kitties@[k], #[trigger] found_of(lookups@[k])),
                forall|k: int| 0 <= k < i && kitty_client_pid(kitties@[k]) is None ==> #[trigger] found_of(lookups@[k]) is None,
                forall|k: int| 0 <= k < i && !(done && k == i - 1) ==> !(#[trigger] found_of(lookups@[k]) matches Some(s) && eq_ignore_ascii_case(s, session_name@)),
                done ==> i > 0 && (found_of(lookups@[i - 1]) matches Some(s) && eq_ignore_ascii_case(s, session_name@)),
            decreases kitties.len() - i,
        {
            let tree = match &kitties[i].1 {
                Some(t) => Some(t.as_str()),
                None => None,
            };
            let lookup = self.find_session_by_parent_pid(tree);
            proof {
                let k = kitties@[i as int];
                assert(opt_view(tree) == match k.1 {
                    Some(t) => Some(t@),
                    None => None,
                });
                if let Ok(Some(a)) = opt_string_result_view(lookup) {
                    assert(tree is Some && tree->0@ == (k.1->0)@);
                    let pid = kitty_client_pid(k)->0;
                    let output = choose|output: Result<String, TmuxError>|
                        opt_string_result_view(lookup) == #[trigger] client_session_outcome(pid, output);
                    assert(client_session_from(lines(output->Ok_0@), pid, 0) == Some(a));
                }
                assert(possible_lookup(k, found_of(lookup)));
            }
            done = lookup_matches(&lookup, &wanted);
            lookups.push(lookup);
            i += 1;
        }
        proof {
            let f = founds(lookups@);
            if done {
                lemma_first_attached_skip(f, session_name@, 0, i - 1);
                assert(f[i - 1] == found_of(lookups@[i - 1]));
                assert(first_attached_from(f, session_name@, 0) == Some(i - 1));
            } else {
                lemma_first_attached_skip(f, session_name@, 0, i as int);
            }
            if forall|j: int| 0 <= j < kitties@.len() ==> kitty_client_pid(#[trigger] kitties@[j]) is None {
                assert(!done) by {
                    if done {
                        assert(kitty_client_pid(kitties@[i - 1]) is None);
                    }
                }
            }
        }
        Ok(first_attached_kitty(kitties, &lookups, session_name))
    }

    /// Switches the tmux client under a terminal (given the terminal's
    /// `pstree -p` output) to `session_name`: without a client pid, `Ok` and
    /// no call; else `client_ttys_command` (`list-clients -F "#{client_tty}
    /// #{client_pid}"`) is run,
    /// its error returned, and on success `switch_tty_command` is run for the
    /// client's tty (`tty_of_client`), if it is listed, with its result not
    /// looked at.
    pub fn switch_client_in_kitty(&self, pstree_output: Option<&str>, session_name: &str) -> (r: Result<
        (),
        TmuxError,
    >)
        ensures
            match pstree_output {
                Some(t) => match pid_of_capture(regex_first_capture(tmux_client_pattern(), t@)) {
                    Some(pid) => exists|output: Result<String, TmuxError>| r == #[trigger] unit_outcome(output),
                    None => r is Ok,
                },
                None => r is Ok,
            },
    {
        let tree = match pstree_output {
            Some(t) => t,
            None => return Ok(()),
        };
        let client_pid = match extract_tmux_client_pid(tree) {
            Some(pid) => pid,
            None => return Ok(()),
        };
        let output = self.run_command(&client_ttys_command());
        if let Ok(clients) = &output {
            if let Some(tty) = tty_of_client(clients.as_str(), client_pid) {
                let command = switch_tty_command(tty.as_str(), session_name);
                let _ = self.run_command(&command);
            }
        }
        let r = Self::unit_from_output(output);
        assert(r == unit_outcome(output));
        r
    }
}

proof fn lemma_first_named_from(sessions: Seq<(Seq<char>, Seq<char>)>, name: Seq<char>, i: int)
    ensures
        first_named_from(sessions, name, i) matches Some(j) ==> i <= j < sessions.len()
            && eq_ignore_ascii_case(sessions[j].0, name),
    decreases sessions.len() - i,
{
    if 0 <= i < sessions.len() && !eq_ignore_ascii_case(sessions[i].0, name) {
        lemma_first_named_from(sessions, name, i + 1);
    }
}


// ---------------------------------------------------------------------------
// The session of a project root
/// A session candidate: the session, its canonical path (`None` where it
/// could not be resolved) and whether that path holds a project marker.
pub type RepoSessionCandidate = (SessionInfo, Option<String>, bool);

/// The candidate sits at the project root itself.
pub open spec fn at_root(c: RepoSessionCandidate, root: Seq<char>) -> bool {
    match c.1 {
        Some(p) => same_path(p@, root),
        None => false,
    }
}

/// The candidate sits at a proper ancestor of the root that is itself a project.
pub open spec fn above_root(c: RepoSessionCandidate, root: Seq<char>) -> bool {
    match c.1 {
        Some(p) => path_starts_with(root, p@) && !same_path(p@, root) && c.2,
        None => false,
    }
}

/// The first candidate at or after `i` that sits at the root.
pub open spec fn first_at_root_from(cs: Seq<RepoSessionCandidate>, root: Seq<char>, i: int) -> Option<int>
    decreases cs.len() - i,
{
    if i < 0 || i >= cs.len() {
        None
    } else if at_root(cs[i], root) {
        Some(i)
    } else {
        first_at_root_from(cs, root, i + 1)
    }
}

/// The first candidate at or after `i` that sits above the root.
pub open spec fn first_above_root_from(cs: Seq<RepoSessionCandidate>, root: Seq<char>, i: int) -> Option<int>
    decreases cs.len() - i,
{
    if i < 0 || i >= cs.len() {
        None
    } else if above_root(cs[i], root) {
        Some(i)
    } else {
        first_above_root_from(cs, root, i + 1)
    }
}

/// The candidate a project root belongs to: the first one at the root, else
/// the first one at an ancestor of the root that is itself a project.
pub open spec fn repo_session_index(cs: Seq<RepoSessionCandidate>, root: Seq<char>) -> Option<int> {
    match first_at_root_from(cs, root, 0) {
        Some(i) => Some(i),
        None => first_above_root_from(cs, root, 0),
    }
}

impl<E: TmuxCommandExecutor> TmuxSessionManager<E> {
    /// The session a project root (given canonical) belongs to, among the
    /// listed sessions with their canonical paths and project markers.
    pub fn repo_session_among(root_path: &str, candidates: &Vec<RepoSessionCandidate>) -> (r: Option<
        SessionInfo,
    >)
        ensures
            match repo_session_index(candidates@, root_path@) {
                Some(i) => r matches Some(s) && s@ == candidates@[i].0@,
                None => r is None,
            },
    {
        let ghost cs = candidates@;
        let mut i: usize = 0;
        while i < candidates.len()
            invariant
                i <= cs.len(),
                cs == candidates@,
                first_at_root_from(cs, root_path@, 0) == first_at_root_from(cs, root_path@, i as int),
            decreases candidates.len() - i,
        {
            if let Some(p) = &candidates[i].1 {
                if same_path_exec(p.as_str(), root_path) {
                    let s = &candidates[i].0;
                    return Some(SessionInfo { name: s.name.clone(), path: s.path.clone() });
                }
            }
            i += 1;
        }
        let mut j: usize = 0;
        while j < candidates.len()
            invariant
                j <= cs.len(),
                cs == candidates@,
                first_at_root_from(cs, root_path@, 0) is None,
                first_above_root_from(cs, root_path@, 0) == first_above_root_from(cs, root_path@, j as int),
            decreases candidates.len() - j,
        {
            if let Some(p) = &candidates[j].1 {
                if candidates[j].2 && path_starts_with_exec(root_path, p.as_str()) && !same_path_exec(
                    p.as_str(),
                    root_path,
                ) {
                    let s = &candidates[j].0;
                    return Some(SessionInfo { name: s.name.clone(), path: s.path.clone() });
                }
            }
            j += 1;
        }
        None
    }
}

/// Whether any project marker is present (`present[i]` tells whether the
/// i-th marker exists in the directory).
pub fn has_project_marker(present: &Vec<bool>) -> (r: bool)
    ensures
        r == exists|i: int| 0 <= i < present@.len() && present@[i],
{
    let mut i: usize = 0;
    while i < present.len()
        invariant
            i <= present@.len(),
            forall|j: int| 0 <= j < i ==> !present@[j],
        decreases present.len() - i,
    {
        if present[i] {
            return true;
        }
        i += 1;
    }
    false
}


// ---------------------------------------------------------------------------
// Laws
/// Putting in pane paths keeps the sessions of `list-sessions`: the same
/// number, in the same order, under the same names.
pub proof fn law_list_keeps_session_names(session_output: Seq<char>, pane_output: Option<Seq<char>>)
    ensures
        listed_sessions(session_output, pane_output).len() == sessions_of_lines(
            lines(session_output),
        ).len(),
        forall|i: int|
            0 <= i < sessions_of_lines(lines(session_output)).len() ==> (#[trigger] listed_sessions(
                session_output,
                pane_output,
            )[i]).0 == sessions_of_lines(lines(session_output))[i].0,
{
}

/// Each session name has at most one pane path: the names that
/// `parse_pane_paths` reports are pairwise distinct.
pub proof fn law_pane_path_names_distinct(ls: Seq<Seq<char>>)
    ensures
        forall|i: int, j: int|
            0 <= i < j < pane_paths_of_lines(ls).len() ==> (#[trigger] pane_paths_of_lines(ls)[i]).0
                != (#[trigger] pane_paths_of_lines(ls)[j]).0,
    decreases ls.len(),
{
    if ls.len() > 0 {
        law_pane_path_names_distinct(ls.drop_last());
        let init = pane_paths_of_lines(ls.drop_last());
        match pane_path_of_line(ls.last()) {
            Some(e) => if !has_name(init, e.0) {
                let m = init.push(e);
                assert forall|i: int, j: int| 0 <= i < j < m.len() implies (#[trigger] m[i]).0 != (
                #[trigger] m[j]).0 by {
                    if j == m.len() - 1 {
                        assert(m[i] == init[i]);
                        if init[i].0 == e.0 {
                            assert(has_name(init, e.0));
                        }
                    } else {
                        assert(m[i] == init[i] && m[j] == init[j]);
                    }
                }
            },
            None => {},
        }
    }
}

/// Activating a session always ends by switching the client to it, after
/// selecting a window and a pane or without doing so.
pub proof fn law_activation_ends_with_switch(session: Seq<char>, pane_listing: Option<Seq<char>>)
    ensures
        activation_commands(session, pane_listing).len() == 1 || activation_commands(
            session,
            pane_listing,
        ).len() == 3,
        activation_commands(session, pane_listing).last() == seq!["switch-client"@, "-t"@, session],
{
}

/// A listing line names a pane that runs nvim (its third word is `nvim`,
/// with a pid after it).
pub open spec fn runs_nvim(line: Seq<char>) -> bool {
    words(line).len() >= 4 && words(line)[2] == "nvim"@
}

proof fn lemma_no_nvim_no_candidates(ls: Seq<Seq<char>>)
    requires
        forall|i: int| 0 <= i < ls.len() ==> !runs_nvim(#[trigger] ls[i]),
    ensures
        candidates_of_lines(ls).len() == 0,
    decreases ls.len(),
{
    if ls.len() > 0 {
        assert forall|i: int| 0 <= i < ls.drop_last().len() implies !runs_nvim(#[trigger] ls.drop_last()[i]) by {
            assert(ls.drop_last()[i] == ls[i]);
        }
        lemma_no_nvim_no_candidates(ls.drop_last());
        assert(!runs_nvim(ls[ls.len() - 1]));
    }
}

/// The nvim-pane lookup: the pane picked for a session is the first
/// candidate of the `list-panes -s` output whose nvim process is known; so a
/// listing in which no pane runs nvim gives no pane, whatever pids are known.
pub proof fn law_no_nvim_pane_without_nvim(output: Seq<char>, nvim_pids: Seq<Option<u32>>)
    requires
        forall|i: int| 0 <= i < lines(output).len() ==> !runs_nvim(#[trigger] lines(output)[i]),
    ensures
        candidates_of_lines(lines(output)).len() == 0,
        first_known_from(
            nvim_pids,
            if candidates_of_lines(lines(output)).len() < nvim_pids.len() {
                candidates_of_lines(lines(output)).len() as int
            } else {
                nvim_pids.len() as int
            },
            0,
        ) is None,
{
    lemma_no_nvim_no_candidates(lines(output));
}
} // verus!
