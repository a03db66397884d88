//! Which tmux command an argument list asks for.
use vstd::prelude::*;

use crate::text::{chars_eq, chars_of};

verus! {

/// A tmux command line, as the executor runs it: one of the commands it
/// builds directly, or any other command line, run as it is.
#[derive(Debug, Clone, PartialEq, Eq)]
pub enum TmuxInvocation {
    /// `list-sessions -F <format>`.
    ListSessions { format: String },
    /// `list-panes -a -F <format> ..`.
    ListPanes { format: String },
    /// `new-session -d -s <name> -c <dir> <command>`.
    NewSession { name: String, dir: String, command: String },
    /// `new-window -t <target> -c <dir> <command>`.
    NewWindow { target: String, dir: String, command: String },
    /// `switch-client -t <target>`.
    SwitchClient { target: String },
    /// `select-window -t <target>`.
    SelectWindow { target: String },
    /// `select-pane -t <target>`.
    SelectPane { target: String },
    /// Any other command line.
    Other,
}

/// The texts of the arguments.
pub open spec fn arg_views(args: Seq<&str>) -> Seq<Seq<char>> {
    Seq::new(args.len(), |i: int| args[i]@)
}

/// `a` is `<command> -t <target>`.
pub open spec fn is_targeted(a: Seq<Seq<char>>, command: Seq<char>) -> bool {
    a.len() == 3 && a[0] == command && a[1] == "-t"@
}

/// `a` is `list-sessions -F <format>`.
pub open spec fn is_list_sessions(a: Seq<Seq<char>>) -> bool {
    a.len() == 3 && a[0] == "list-sessions"@ && a[1] == "-F"@
}

/// `a` is `list-panes -a -F <format>`, with or without more arguments.
pub open spec fn is_list_panes(a: Seq<Seq<char>>) -> bool {
    a.len() >= 4 && a[0] == "list-panes"@ && a[1] == "-a"@ && a[2] == "-F"@
}

/// `a` is `new-session -d -s <name> -c <dir> <command>`.
pub open spec fn is_new_session(a: Seq<Seq<char>>) -> bool {
    a.len() == 7 && a[0] == "new-session"@ && a[1] == "-d"@ && a[2] == "-s"@ && a[4] == "-c"@
}

/// `a` is `new-window -t <target> -c <dir> <command>`.
pub open spec fn is_new_window(a: Seq<Seq<char>>) -> bool {
    a.len() == 6 && a[0] == "new-window"@ && a[1] == "-t"@ && a[3] == "-c"@
}

/// The invocation an argument list asks for.
pub open spec fn invocation_matches(r: TmuxInvocation, a: Seq<Seq<char>>) -> bool {
    if is_list_sessions(a) {
        r matches TmuxInvocation::ListSessions { format } && format@ == a[2]
    } else if is_list_panes(a) {
        r matches TmuxInvocation::ListPanes { format } && format@ == a[3]
    } else if is_new_session(a) {
        r matches TmuxInvocation::NewSession { name, dir, command } && name@ == a[3] && dir@ == a[5]
            && command@ == a[6]
    } else if is_new_window(a) {
        r matches TmuxInvocation::NewWindow { target, dir, command } && target@ == a[2] && dir@
            == a[4] && command@ == a[5]
    } else if is_targeted(a, "switch-client"@) {
        r matches TmuxInvocation::SwitchClient { target } && target@ == a[2]
    } else if is_targeted(a, "select-window"@) {
        r matches TmuxInvocation::SelectWindow { target } && target@ == a[2]
    } else if is_targeted(a, "select-pane"@) {
        r matches TmuxInvocation::SelectPane { target } && target@ == a[2]
    } else {
        r is Other
    }
}

fn arg_is(arg: &str, literal: &str) -> (r: bool)
    ensures
        r == (arg@ == literal@),
{
    chars_eq(&chars_of(arg), &chars_of(literal))
}

impl TmuxInvocation {
    /// The invocation that `args` asks for.
    pub fn of_args(args: &[&str]) -> (r: Self)
        ensures
            invocation_matches(r, arg_views(args@)),
    {
        let ghost a = arg_views(args@);
        let n = args.len();
        assert(forall|i: int| 0 <= i < n ==> a[i] == (#[trigger] args@[i])@);
        if n == 3 && arg_is(args[0], "list-sessions") && arg_is(args[1], "-F") {
            return TmuxInvocation::ListSessions { format: args[2].to_owned() };
        }
        if n >= 4 && arg_is(args[0], "list-panes") && arg_is(args[1], "-a") && arg_is(args[2], "-F") {
            return TmuxInvocation::ListPanes { format: args[3].to_owned() };
        }
        if n == 7 && arg_is(args[0], "new-session") && arg_is(args[1], "-d") && arg_is(args[2], "-s")
            && arg_is(args[4], "-c") {
            return TmuxInvocation::NewSession {
                name: args[3].to_owned(),
                dir: args[5].to_owned(),
                command: args[6].to_owned(),
            };
        }
        if n == 6 && arg_is(args[0], "new-window") && arg_is(args[1], "-t") && arg_is(args[3], "-c") {
            return TmuxInvocation::NewWindow {
                target: args[2].to_owned(),
                dir: args[4].to_owned(),
                command: args[5].to_owned(),
            };
        }
        if n == 3 && arg_is(args[1], "-t") {
            if arg_is(args[0], "switch-client") {
                return TmuxInvocation::SwitchClient { target: args[2].to_owned() };
            }
            if arg_is(args[0], "select-window") {
                return TmuxInvocation::SelectWindow { target: args[2].to_owned() };
            }
            if arg_is(args[0], "select-pane") {
                return TmuxInvocation::SelectPane { target: args[2].to_owned() };
            }
        }
        TmuxInvocation::Other
    }

    /// Whether the command's output is handed back (the listings) rather
    /// than dropped.
    pub fn keeps_output(&self) -> (r: bool)
        ensures
            r == (self is ListSessions || self is ListPanes || self is Other),
    {
        match self {
            TmuxInvocation::ListSessions { .. } => true,
            TmuxInvocation::ListPanes { .. } => true,
            TmuxInvocation::Other => true,
            _ => false,
        }
    }
}

} // verus!
