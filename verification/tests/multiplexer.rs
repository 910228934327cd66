use grove::multiplexer::{
    render_template, shorten_with_hash, template_path, zellij_session_name_max_bytes,
    MuxError, SessionName, TemplateContext,
};

#[test]
fn zellij_name_fits_available_socket_path_budget() {
    let name = SessionName::new("spork", "mcasonsnow/REL-4655");

    assert!(name.as_zellij_name_with_max_bytes(24).len() <= 24);
}

#[test]
fn shortened_zellij_names_remain_distinct() {
    let first = shorten_with_hash("spork:mcasonsnow:REL-4655", 24);
    let second = shorten_with_hash("spork:mcasonsnow:REL-4656", 24);

    assert_ne!(first, second);
}

#[test]
fn short_zellij_names_are_unchanged() {
    assert_eq!(shorten_with_hash("grove:main", 24), "grove:main");
}

#[test]
fn shortened_names_carry_the_fnv1a_hash() {
    let value = "spork:mcasonsnow:REL-4655";
    let mut h: u32 = 0x811c9dc5;
    for b in value.bytes() {
        h = (h ^ b as u32).wrapping_mul(0x01000193);
    }
    let suffix = format!("-{h:08x}");
    let short = shorten_with_hash(value, 24);
    assert_eq!(short.len(), 24);
    assert_eq!(short, format!("{}{}", &value[..15], suffix));
    // A budget smaller than the suffix keeps its tail.
    assert_eq!(shorten_with_hash(value, 4), suffix[5..].to_string());
    assert_eq!(shorten_with_hash(value, 0), "");
    // Multi-byte characters are never split.
    let wide = shorten_with_hash("ééééééééé", 12);
    assert!(wide.len() <= 12);
    assert!(wide.starts_with("é"));
}

#[test]
fn session_name_forms() {
    let n = SessionName::new("my/repo", "feat/x");
    assert_eq!(n.as_tmux_name(), "my-repo-feat-x");
    assert_eq!(n.as_zellij_name_with_max_bytes(100), "my:repo:feat:x");
    assert_eq!(n.display(), "my/repo/feat/x");
    assert_eq!(zellij_session_name_max_bytes(40, 108), 66);
    assert_eq!(zellij_session_name_max_bytes(107, 108), 0);
    assert_eq!(zellij_session_name_max_bytes(200, 104), 0);
    assert_eq!(n.as_zellij_name(40, 108), "my:repo:feat:x");
}

fn ctx() -> TemplateContext {
    TemplateContext {
        worktree_path: "/work/grove/feat".to_string(),
        shell: "zsh".to_string(),
        session_name: "grove-feat".to_string(),
        repo: "grove".to_string(),
        branch: "feat".to_string(),
    }
}

#[test]
fn templates_render_their_variables() {
    let out = render_template("cd {{ worktree_path }} && {{ shell }} # {{ session_name }} {{ repo }}/{{ branch }}", &ctx()).unwrap();
    assert_eq!(out, "cd /work/grove/feat && zsh # grove-feat grove/feat");
    let err = render_template("{% if %}", &ctx()).unwrap_err();
    assert!(matches!(err, MuxError::Template { .. }));
    assert!(err.message().starts_with("Failed to render layout template: "));
    // The template is compiled under the name `t`, which the error names.
    assert!(err.message().contains("(in t:1)"), "{}", err.message());
    assert_eq!(template_path("/home/u/.config/grove", "tmux.sh"), "/home/u/.config/grove/templates/tmux.sh");
}
