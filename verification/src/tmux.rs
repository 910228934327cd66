//! The tmux backend: its commands, its session listing, and its default
//! layout script.
use vstd::prelude::*;
use crate::multiplexer::Session;
use crate::text::{lines, lines_spec, owned, trim, trim_spec, views};
use crate::tree::session_names;

verus! {

broadcast use vstd::string::group_string_axioms;

/// The built-in layout script (three windows: shell, editor, opencode),
/// rendered with the template variables and run with `sh -c`.
pub const DEFAULT_LAYOUT: &'static str = r#"SESSION="{{ session_name }}"

tmux rename-window -t "$SESSION:0" "shell"
tmux send-keys -t "$SESSION:0" "cd '{{ worktree_path }}' && {{ shell }}" Enter

tmux new-window -t "$SESSION" -n "editor" -c "{{ worktree_path }}"
tmux send-keys -t "$SESSION:editor" "nvim ." Enter

tmux new-window -t "$SESSION" -n "opencode" -c "{{ worktree_path }}"
tmux send-keys -t "$SESSION:opencode" "opencode" Enter

tmux select-window -t "$SESSION:shell"
"#;

/// The file name of a user's override of the layout script.
pub const LAYOUT_FILE: &'static str = "tmux.sh";

/// The tmux multiplexer backend.
#[derive(Debug)]
pub struct TmuxBackend;

impl TmuxBackend {
    pub fn new() -> (r: TmuxBackend) {
        TmuxBackend
    }
}

/// The sessions in `tmux list-sessions -F '#{session_name}'` output: each
/// non-empty line, trimmed.
pub open spec fn tmux_sessions_spec(ls: Seq<Seq<char>>) -> Seq<Seq<char>>
    decreases ls.len(),
{
    if ls.len() == 0 {
        seq![]
    } else {
        let rest = tmux_sessions_spec(ls.drop_last());
        if ls.last().len() == 0 {
            rest
        } else {
            rest.push(trim_spec(ls.last()))
        }
    }
}

/// The sessions listed in the output of `tmux list-sessions`.
pub fn parse_sessions(stdout: &str) -> (r: Vec<Session>)
    ensures
        session_names(r@) == tmux_sessions_spec(lines_spec(stdout@)),
{
    let ls = lines(stdout);
    let ghost lv = views(ls@);
    let mut r: Vec<Session> = Vec::new();
    let mut i: usize = 0;
    while i < ls.len()
        invariant
            i <= ls.len(),
            lv == views(ls@),
            lv == lines_spec(stdout@),
            session_names(r@) == tmux_sessions_spec(lv.take(i as int)),
        decreases ls.len() - i,
    {
        let ghost before = session_names(r@);
        assert(lv.take(i + 1).drop_last() =~= lv.take(i as int));
        let line = ls[i].as_str();
        if !line.is_empty() {
            r.push(Session { name: trim(line) });
            assert(session_names(r@) =~= before.push(trim_spec(lv[i as int])));
        }
        i = i + 1;
    }
    assert(lv.take(i as int) =~= lv);
    r
}

/// The arguments that list sessions by name.
pub fn list_args() -> (r: Vec<String>)
    ensures
        views(r@) == seq!["list-sessions"@, "-F"@, "#{session_name}"@],
{
    let r = vec![owned("list-sessions"), owned("-F"), owned("#{session_name}")];
    assert(views(r@) =~= seq!["list-sessions"@, "-F"@, "#{session_name}"@]);
    r
}

/// The arguments that create the session `name` detached, in
/// `worktree_path`.
pub fn new_session_args(name: &str, worktree_path: &str) -> (r: Vec<String>)
    ensures
        views(r@) == seq!["new-session"@, "-d"@, "-s"@, name@, "-c"@, worktree_path@],
{
    let r = vec![
        owned("new-session"),
        owned("-d"),
        owned("-s"),
        owned(name),
        owned("-c"),
        owned(worktree_path),
    ];
    assert(views(r@) =~= seq!["new-session"@, "-d"@, "-s"@, name@, "-c"@, worktree_path@]);
    r
}

/// The arguments that attach to session `name`: from inside tmux, switch
/// the client rather than nest.
pub fn attach_args(name: &str, inside_tmux: bool) -> (r: Vec<String>)
    ensures
        views(r@) == seq![
            if inside_tmux {
                "switch-client"@
            } else {
                "attach-session"@
            },
            "-t"@,
            name@,
        ],
{
    let verb = if inside_tmux {
        owned("switch-client")
    } else {
        owned("attach-session")
    };
    let r = vec![verb, owned("-t"), owned(name)];
    assert(views(r@) =~= seq![
        if inside_tmux {
            "switch-client"@
        } else {
            "attach-session"@
        },
        "-t"@,
        name@,
    ]);
    r
}

/// The arguments that kill session `name`.
pub fn kill_args(name: &str) -> (r: Vec<String>)
    ensures
        views(r@) == seq!["kill-session"@, "-t"@, name@],
{
    let r = vec![owned("kill-session"), owned("-t"), owned(name)];
    assert(views(r@) =~= seq!["kill-session"@, "-t"@, name@]);
    r
}

} // verus!
