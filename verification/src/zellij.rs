//! The zellij backend: its commands, its session listing, and its default
//! layout.
use vstd::prelude::*;
use crate::multiplexer::{MuxError, Session};
use crate::text::{
    concat3, contains_substr, first_word, first_word_spec, has_infix, join_path, join_spec, lines,
    lines_spec, owned, replace_char, replace_char_spec, views,
};
use crate::tree::session_names;

verus! {

broadcast use vstd::string::group_string_axioms;

/// The built-in KDL layout (three tabs: shell, editor, opencode), rendered
/// with the template variables.
pub const DEFAULT_LAYOUT: &'static str = r#"layout {
    cwd "{{ worktree_path }}"
    tab name="shell" focus=true {
        pane command="{{ shell }}"
    }
    tab name="editor" {
        pane command="nvim" {
            args "."
        }
    }
    tab name="opencode" {
        pane command="opencode"
    }
}
"#;

/// The file name of a user's override of the layout.
pub const LAYOUT_FILE: &'static str = "zellij.kdl";

/// The zellij multiplexer backend.
#[derive(Debug)]
pub struct ZellijBackend;

impl ZellijBackend {
    pub fn new() -> (r: ZellijBackend) {
        ZellijBackend
    }
}

/// The sessions in `zellij list-sessions --no-formatting` output: the first
/// word of each non-empty line, skipping exited sessions.
pub open spec fn zellij_sessions_spec(ls: Seq<Seq<char>>) -> Seq<Seq<char>>
    decreases ls.len(),
{
    if ls.len() == 0 {
        seq![]
    } else {
        let rest = zellij_sessions_spec(ls.drop_last());
        let l = ls.last();
        if l.len() == 0 || has_infix(l, "EXITED"@) {
            rest
        } else {
            match first_word_spec(l) {
                Some(w) => rest.push(w),
                None => rest,
            }
        }
    }
}

/// The live sessions listed in the output of `zellij list-sessions`.
pub fn parse_sessions(stdout: &str) -> (r: Vec<Session>)
    ensures
        session_names(r@) == zellij_sessions_spec(lines_spec(stdout@)),
{
    let ls = lines(stdout);
    let ghost lv = views(ls@);
    let mut r: Vec<Session> = Vec::new();
    let mut i: usize = 0;
    while i < ls.len()
        invariant
            i <= ls.len(),
            lv == views(ls@),
            lv == lines_spec(stdout@),
            session_names(r@) == zellij_sessions_spec(lv.take(i as int)),
        decreases ls.len() - i,
    {
        let ghost before = session_names(r@);
        assert(lv.take(i + 1).drop_last() =~= lv.take(i as int));
        let line = ls[i].as_str();
        if !line.is_empty() && !contains_substr(line, "EXITED") {
            match first_word(line) {
                Some(w) => {
                    r.push(Session { name: w });
                    assert(session_names(r@) =~= before.push(
                        first_word_spec(lv[i as int]).unwrap(),
                    ));
                },
                None => {},
            }
        }
        i = i + 1;
    }
    assert(lv.take(i as int) =~= lv);
    r
}

/// Creating or attaching a session from inside zellij is refused.
pub fn ensure_not_inside_zellij(inside_zellij: bool) -> (r: Result<(), MuxError>)
    ensures
        r is Ok <==> !inside_zellij,
        r matches Err(e) ==> e is InsideZellij,
{
    if inside_zellij {
        Err(MuxError::InsideZellij)
    } else {
        Ok(())
    }
}

/// The file the rendered layout of session `zellij_name` is written to, in
/// the temporary directory `temp_dir`: `grove-<name>.kdl`, with each `/` of
/// the name replaced by `-`.
pub fn layout_path(temp_dir: &str, zellij_name: &str) -> (r: String)
    ensures
        r@ == join_spec(temp_dir@, "grove-"@ + replace_char_spec(zellij_name@, '/', '-') + ".kdl"@),
{
    let flat = replace_char(zellij_name, '/', '-');
    let file = concat3("grove-", flat.as_str(), ".kdl");
    join_path(temp_dir, file.as_str())
}

/// The arguments that list sessions without formatting.
pub fn list_args() -> (r: Vec<String>)
    ensures
        views(r@) == seq!["list-sessions"@, "--no-formatting"@],
{
    let r = vec![owned("list-sessions"), owned("--no-formatting")];
    assert(views(r@) =~= seq!["list-sessions"@, "--no-formatting"@]);
    r
}

/// The arguments that delete an exited session `name`.
pub fn delete_args(name: &str) -> (r: Vec<String>)
    ensures
        views(r@) == seq!["delete-session"@, name@],
{
    let r = vec![owned("delete-session"), owned(name)];
    assert(views(r@) =~= seq!["delete-session"@, name@]);
    r
}

/// The arguments that start session `name` with the layout file `layout`.
pub fn create_args(name: &str, layout: &str) -> (r: Vec<String>)
    ensures
        views(r@) == seq!["-s"@, name@, "-n"@, layout@],
{
    let r = vec![owned("-s"), owned(name), owned("-n"), owned(layout)];
    assert(views(r@) =~= seq!["-s"@, name@, "-n"@, layout@]);
    r
}

/// The arguments that attach to session `name`.
pub fn attach_args(name: &str) -> (r: Vec<String>)
    ensures
        views(r@) == seq!["attach"@, name@],
{
    let r = vec![owned("attach"), owned(name)];
    assert(views(r@) =~= seq!["attach"@, name@]);
    r
}

/// The arguments that kill session `name`.
pub fn kill_args(name: &str) -> (r: Vec<String>)
    ensures
        views(r@) == seq!["kill-session"@, name@],
{
    let r = vec![owned("kill-session"), owned(name)];
    assert(views(r@) =~= seq!["kill-session"@, name@]);
    r
}

} // verus!
