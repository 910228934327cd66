use grove::multiplexer::{render_template, MuxError, TemplateContext};
use grove::tmux;
use grove::zellij::{self, DEFAULT_LAYOUT};

#[test]
fn default_layout_has_no_session_bar_plugin() {
    assert!(
        !DEFAULT_LAYOUT.contains("zj-session-bar"),
        "default zellij layout must not reference the zj-session-bar plugin"
    );
}

fn ctx(name: &str) -> TemplateContext {
    TemplateContext {
        worktree_path: "/w/grove/feat".to_string(),
        shell: "fish".to_string(),
        session_name: name.to_string(),
        repo: "grove".to_string(),
        branch: "feat".to_string(),
    }
}

#[test]
fn default_layouts_render() {
    let kdl = render_template(DEFAULT_LAYOUT, &ctx("grove:feat")).unwrap();
    assert!(kdl.contains("cwd \"/w/grove/feat\""));
    assert!(kdl.contains("command=\"fish\""));
    assert!(kdl.contains("tab name=\"opencode\""));
    let sh = render_template(tmux::DEFAULT_LAYOUT, &ctx("grove-feat")).unwrap();
    assert!(sh.starts_with("SESSION=\"grove-feat\""));
    assert!(sh.contains("-n \"editor\" -c \"/w/grove/feat\""));
}

#[test]
fn tmux_sessions_and_commands() {
    let sessions = tmux::parse_sessions("grove-main\n  spaced  \n\nother\n");
    let names: Vec<&str> = sessions.iter().map(|s| s.name.as_str()).collect();
    assert_eq!(names, vec!["grove-main", "spaced", "other"]);
    assert_eq!(tmux::attach_args("s", true), vec!["switch-client", "-t", "s"]);
    assert_eq!(tmux::attach_args("s", false), vec!["attach-session", "-t", "s"]);
    assert_eq!(tmux::kill_args("s"), vec!["kill-session", "-t", "s"]);
    assert_eq!(tmux::new_session_args("s", "/p"), vec!["new-session", "-d", "-s", "s", "-c", "/p"]);
    assert_eq!(tmux::list_args(), vec!["list-sessions", "-F", "#{session_name}"]);
    let _ = tmux::TmuxBackend::new();
}

#[test]
fn zellij_sessions_and_commands() {
    let out = "grove:main [Created 2h ago] (current)\nold [Created 1d ago] (EXITED - attach to resurrect)\n\nlast [Created 1m ago]\n";
    let sessions = zellij::parse_sessions(out);
    let names: Vec<&str> = sessions.iter().map(|s| s.name.as_str()).collect();
    assert_eq!(names, vec!["grove:main", "last"]);
    assert!(matches!(zellij::ensure_not_inside_zellij(true), Err(MuxError::InsideZellij)));
    assert!(zellij::ensure_not_inside_zellij(false).is_ok());
    assert_eq!(zellij::layout_path("/tmp", "grove:feat"), "/tmp/grove-grove:feat.kdl");
    assert_eq!(zellij::layout_path("/tmp", "a/b"), "/tmp/grove-a-b.kdl");
    assert_eq!(zellij::create_args("n", "/tmp/l.kdl"), vec!["-s", "n", "-n", "/tmp/l.kdl"]);
    assert_eq!(zellij::attach_args("n"), vec!["attach", "n"]);
    assert_eq!(zellij::kill_args("n"), vec!["kill-session", "n"]);
    assert_eq!(zellij::delete_args("n"), vec!["delete-session", "n"]);
    assert_eq!(zellij::list_args(), vec!["list-sessions", "--no-formatting"]);
    let _ = zellij::ZellijBackend::new();
}
