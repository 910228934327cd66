use grove::git::{
    base_from_head, base_from_origin_head, check_destination, clone_args, clone_destination,
    delete_branch_args, heads_to_delete, is_linked_gitdir, merge_base_args, merged_from_exit,
    orphan_dirs, parse_local_branches, parse_remote_branches, parse_remotes, parse_worktree_list,
    registered_at, repo_name_from_url, upstream_config_args, upstream_gone, worktree_add_args,
    GitError, LayoutProbe, RepoLayout, WorktreeSource,
};

#[test]
fn test_repo_name_from_https_url() {
    let name = repo_name_from_url("https://github.com/user/myrepo.git").unwrap();
    assert_eq!(name, "myrepo");
}

#[test]
fn test_repo_name_from_ssh_url() {
    let name = repo_name_from_url("git@github.com:user/myrepo.git").unwrap();
    assert_eq!(name, "myrepo");
}

#[test]
fn test_repo_name_no_git_suffix() {
    let name = repo_name_from_url("https://github.com/user/myrepo").unwrap();
    assert_eq!(name, "myrepo");
}

#[test]
fn repo_name_edge_cases() {
    assert_eq!(repo_name_from_url("plain.git.git").unwrap(), "plain");
    assert!(matches!(repo_name_from_url("https://host/user/"), Err(GitError::NoRepoName { ref url }) if url == "https://host/user/"));
    assert!(repo_name_from_url("https://host/.git").is_err());
}

#[test]
fn test_parse_worktree_list() {
    let output = "\
worktree /home/user/repo
HEAD abc123
branch refs/heads/main
bare

worktree /home/user/repo/worktrees/feat
HEAD def456
branch refs/heads/feat

";
    let trees = parse_worktree_list(output).unwrap();
    assert_eq!(trees.len(), 2);
    assert!(trees[0].is_bare);
    assert!(!trees[1].is_bare);
    assert_eq!(trees[1].branch.as_deref(), Some("refs/heads/feat"));
}

#[test]
fn parse_worktree_list_reads_detached_locked_and_unterminated_entries() {
    let output = "worktree /r\nHEAD 111\ndetached\n\nworktree /r/a\nHEAD 222\nbranch refs/heads/a\nlocked agent at work\n\nworktree /r/b\nHEAD 333\nbranch refs/heads/b\nlocked";
    let trees = parse_worktree_list(output).unwrap();
    assert_eq!(trees.len(), 3);
    assert_eq!(trees[0].branch, None);
    assert_eq!(trees[0].head, "111");
    assert!(!trees[0].locked);
    assert!(trees[1].locked);
    assert_eq!(trees[1].path, "/r/a");
    assert!(trees[2].locked);
    assert_eq!(trees[2].branch.as_deref(), Some("refs/heads/b"));
}

#[test]
fn detect_container_layout() {
    let probe = LayoutProbe { bare_head_is_file: true, head_is_file: false, objects_is_dir: false };
    let layout = RepoLayout::detect("/tmp/c", probe).unwrap();
    assert!(matches!(layout, RepoLayout::Container { .. }));
    assert_eq!(layout.git_dir(), "/tmp/c/.bare");
    assert_eq!(layout.worktree_path("feat"), "/tmp/c/feat");
}

#[test]
fn detect_legacy_bare_layout() {
    let probe = LayoutProbe { bare_head_is_file: false, head_is_file: true, objects_is_dir: true };
    let layout = RepoLayout::detect("/tmp/l", probe).unwrap();
    assert!(matches!(layout, RepoLayout::LegacyBare { .. }));
    assert_eq!(layout.git_dir(), "/tmp/l");
    assert_eq!(layout.worktree_path("feat"), "/tmp/l/worktrees/feat");
}

#[test]
fn detect_rejects_non_repo() {
    let probe = LayoutProbe { bare_head_is_file: false, head_is_file: true, objects_is_dir: false };
    let err = RepoLayout::detect("/tmp/x", probe).unwrap_err();
    assert!(err.message().contains("is not a grove-managed repository"));
    let (a, b, c) = LayoutProbe::paths("/tmp/x");
    assert_eq!((a.as_str(), b.as_str(), c.as_str()), ("/tmp/x/.bare/HEAD", "/tmp/x/HEAD", "/tmp/x/objects"));
}

#[test]
fn worktree_add_existing_local_places_worktree_at_container_root() {
    let layout = RepoLayout::Container { container: "/tmp/myrepo".to_string() };
    let dir = layout.worktree_path("master");
    // Worktree is a direct child of the container, NOT under worktrees/.
    assert_eq!(dir, "/tmp/myrepo/master");
    let args = worktree_add_args(&dir, "master", &WorktreeSource::ExistingLocal);
    assert_eq!(args, vec!["worktree", "add", "/tmp/myrepo/master", "master"]);
}

#[test]
fn worktree_add_existing_local_does_not_reset() {
    let args = worktree_add_args("/c/feat", "feat", &WorktreeSource::ExistingLocal);
    assert!(!args.iter().any(|a| a == "-b" || a == "-B"), "existing local branch must not be reset");
    let args = worktree_add_args(
        "/c/feat",
        "feat",
        &WorktreeSource::TrackingRemote { upstream: "origin/feat".to_string() },
    );
    assert_eq!(args, vec!["worktree", "add", "-b", "feat", "/c/feat", "origin/feat"]);
    let args = worktree_add_args("/c/shiny", "shiny", &WorktreeSource::NewFromHead);
    assert_eq!(args, vec!["worktree", "add", "-b", "shiny", "/c/shiny"]);
}

#[test]
fn list_local_branches_returns_seeded_branches() {
    let mut branches = parse_local_branches("master\nfeat\nfix/typo\n");
    branches.sort();
    assert_eq!(branches, vec!["feat", "fix/typo", "master"]);
}

#[test]
fn listings_trim_and_filter() {
    assert_eq!(parse_remotes("origin\n  upstream  \n\n"), vec!["origin", "upstream"]);
    assert_eq!(
        parse_remote_branches("origin\norigin/HEAD\norigin/master\r\norigin/feat/x\n"),
        vec!["origin/master", "origin/feat/x"]
    );
}

#[test]
fn clone_cleanup_keeps_only_the_default_head() {
    let heads = "refs/heads/feat\nrefs/heads/master\nrefs/heads/fix\n";
    assert_eq!(heads_to_delete(heads, "master"), vec!["refs/heads/feat", "refs/heads/fix"]);
    let (remote, merge) = upstream_config_args("master");
    assert_eq!(remote, vec!["config", "branch.master.remote", "origin"]);
    assert_eq!(merge, vec!["config", "branch.master.merge", "refs/heads/master"]);
    assert_eq!(clone_args("u", "/d/.bare"), vec!["clone", "--bare", "u", "/d/.bare"]);
}

#[test]
fn clone_destination_and_existing_paths() {
    let c = clone_destination("git@github.com:user/myrepo.git", "/work").unwrap();
    assert_eq!((c.name.as_str(), c.path.as_str()), ("myrepo", "/work/myrepo"));
    let err = check_destination("/work/myrepo", true).unwrap_err();
    assert_eq!(err.message(), "Destination already exists: /work/myrepo");
    assert!(check_destination("/work/myrepo", false).is_ok());
}

#[test]
fn base_branch_and_branch_state() {
    let b = base_from_origin_head("refs/remotes/origin/main\n").unwrap();
    assert_eq!((b.name.as_str(), b.git_ref.as_str()), ("main", "origin/main"));
    assert!(base_from_origin_head("refs/heads/main").is_none());
    let h = base_from_head("master\n");
    assert_eq!((h.name.as_str(), h.git_ref.as_str()), ("master", "master"));
    assert_eq!(merged_from_exit(Some(0)).unwrap(), true);
    assert_eq!(merged_from_exit(Some(1)).unwrap(), false);
    assert!(merged_from_exit(Some(128)).is_err());
    assert!(merged_from_exit(None).is_err());
    assert!(upstream_gone("[gone]\n"));
    assert!(!upstream_gone("[ahead 1]"));
    assert!(!upstream_gone(""));
    assert_eq!(delete_branch_args("feat", true), vec!["branch", "-D", "feat"]);
    assert_eq!(delete_branch_args("feat", false), vec!["branch", "-d", "feat"]);
    assert_eq!(
        merge_base_args("feat", "origin/main"),
        vec!["merge-base", "--is-ancestor", "refs/heads/feat", "origin/main"]
    );
}

#[test]
fn worktree_directories_are_recognised() {
    let wts = parse_worktree_list("worktree /c/.bare\nbare\n\nworktree /c/feat/auth\nHEAD 1\nbranch refs/heads/feat/auth\n").unwrap();
    assert!(registered_at(&wts, "/c/feat/auth"));
    assert!(!registered_at(&wts, "/c/feat"));
    assert!(is_linked_gitdir("gitdir: /c/.bare/worktrees/staging\n", "/c/.bare"));
    assert!(!is_linked_gitdir("gitdir: /elsewhere/.git/worktrees/x", "/c/.bare"));
    assert!(!is_linked_gitdir("not a pointer", "/c/.bare"));
    let registered = vec!["/c/feat/auth".to_string(), "/c/main".to_string()];
    let children = vec![
        ".bare".to_string(),
        "feat".to_string(),
        "main".to_string(),
        "junk".to_string(),
    ];
    // `feat` holds the `feat/auth` worktree, so it is not an orphan.
    assert_eq!(orphan_dirs("/c", &children, &registered), vec!["/c/junk"]);
}

#[test]
fn repo_names_are_their_own_names() {
    for url in ["https://github.com/user/myrepo.git", "git@host:a/b.git.git", "plain"] {
        let name = repo_name_from_url(url).unwrap();
        assert!(!name.contains('/'));
        assert!(!name.ends_with(".git"));
        assert_eq!(repo_name_from_url(&name).unwrap(), name);
    }
}

#[test]
fn ssh_url_without_slash_names_the_repo() {
    assert_eq!(repo_name_from_url("git@github.com:myrepo.git").unwrap(), "myrepo");
    assert_eq!(repo_name_from_url("host:x.git").unwrap(), "x");
    assert!(repo_name_from_url("host:").is_err());
}

#[test]
fn porcelain_text_of_records_parses_back() {
    let text = "worktree /c/.bare\nbare\n\nworktree /c/feat\nHEAD abc\nbranch refs/heads/feat\nlocked\n\nworktree /c/d\nHEAD def\ndetached\n\n";
    let trees = parse_worktree_list(text).unwrap();
    assert_eq!(trees.len(), 3);
    assert!(trees[0].is_bare && trees[0].head.is_empty() && trees[0].branch.is_none());
    assert_eq!((trees[1].head.as_str(), trees[1].branch.as_deref(), trees[1].locked), ("abc", Some("refs/heads/feat"), true));
    assert_eq!((trees[2].path.as_str(), trees[2].branch.as_deref(), trees[2].locked), ("/c/d", None, false));
}

#[test]
fn parse_worktree_list_reads_record_lines_in_any_order() {
    let output = "worktree /r\nbare\nbranch refs/heads/main\nHEAD 111\n\nworktree /r/a\nlocked\ndetached\nHEAD 222\n\nworktree /r/b\nbranch refs/heads/b\n\n";
    let trees = parse_worktree_list(output).unwrap();
    assert_eq!(trees.len(), 3);
    assert!(trees[0].is_bare);
    assert_eq!(trees[0].head, "111");
    assert_eq!(trees[0].branch.as_deref(), Some("refs/heads/main"));
    assert!(trees[1].locked && !trees[1].is_bare);
    assert_eq!(trees[1].branch, None);
    assert_eq!(trees[1].head, "222");
    // Nothing carries over from the records before.
    assert_eq!(trees[2].head, "");
    assert!(!trees[2].locked && !trees[2].is_bare);
    assert_eq!(trees[2].branch.as_deref(), Some("refs/heads/b"));
}
