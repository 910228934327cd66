use grove::git::{Worktree, WorktreeSource};
use grove::multiplexer::{Session, SessionName};
use grove::open::{
    build_picker_entries, existing_session_name, find_existing_worktree, new_branch_problem,
    resolve_branch_arg, resolve_step, BranchSource, NewBranchProblem, OpenError, ResolveAction,
    ResolveEvent, ReuseNote,
};

fn labels(entries: &[(String, BranchSource)]) -> Vec<&str> {
    entries.iter().map(|(l, _)| l.as_str()).collect()
}

fn strings(v: &[&str]) -> Vec<String> {
    v.iter().map(|s| s.to_string()).collect()
}

#[test]
fn build_picker_entries_orders_new_then_locals_then_remotes() {
    let entries = build_picker_entries(
        &vec!["master".to_string(), "feat/auth".to_string()],
        &vec!["origin/main".to_string(), "origin/release/1.2".to_string()],
    );

    assert_eq!(
        labels(&entries),
        vec![
            "[new]    + create new branch",
            "[local]  feat/auth",
            "[local]  master",
            "[remote] origin/main",
            "[remote] origin/release/1.2",
        ]
    );
}

#[test]
fn build_picker_entries_hides_remotes_shadowed_by_locals() {
    let entries = build_picker_entries(
        &vec!["feat".to_string()],
        &vec!["origin/feat".to_string(), "origin/main".to_string()],
    );

    let labels = labels(&entries);
    assert!(labels.contains(&"[local]  feat"));
    assert!(labels.contains(&"[remote] origin/main"));
    assert!(
        !labels.iter().any(|l| l.contains("origin/feat")),
        "origin/feat must be hidden by local feat"
    );
}

#[test]
fn build_picker_entries_keeps_multiple_remotes_for_same_branch_when_no_local() {
    let entries = build_picker_entries(
        &vec![],
        &vec!["origin/feat".to_string(), "upstream/feat".to_string()],
    );

    let labels = labels(&entries);
    assert!(labels.contains(&"[remote] origin/feat"));
    assert!(labels.contains(&"[remote] upstream/feat"));
}

#[test]
fn build_picker_entries_splits_remote_on_first_slash_only() {
    let entries = build_picker_entries(&vec![], &vec!["origin/release/1.2".to_string()]);

    let (label, source) = entries
        .iter()
        .find(|(l, _)| l.starts_with("[remote]"))
        .expect("remote entry");
    assert_eq!(label, "[remote] origin/release/1.2");
    match source {
        BranchSource::Remote { local, upstream } => {
            assert_eq!(local, "release/1.2");
            assert_eq!(upstream, "origin/release/1.2");
        }
        other => panic!("expected Remote, got {other:?}"),
    }
}

#[test]
fn build_picker_entries_returns_new_only_when_no_branches() {
    let entries = build_picker_entries(&vec![], &vec![]);
    assert_eq!(labels(&entries), vec!["[new]    + create new branch"]);
    assert!(matches!(entries[0].1, BranchSource::New(_)));
}

#[test]
fn build_picker_entries_sorts_duplicates_and_non_ascii() {
    let entries = build_picker_entries(
        &strings(&["zeta", "Alpha", "zeta", "éclair"]),
        &strings(&["origin/zeta", "origin/beta", "nohead"]),
    );
    assert_eq!(
        labels(&entries),
        vec![
            "[new]    + create new branch",
            "[local]  Alpha",
            "[local]  zeta",
            "[local]  zeta",
            "[local]  éclair",
            "[remote] origin/beta",
        ]
    );
}

// The repository these mirror holds local branches `master` (always) plus
// the seeded ones, remote refs `origin/<seeded>`, and the remote `origin`.

#[test]
fn resolve_branch_arg_picks_local_first() {
    let src = resolve_branch_arg(
        "feat",
        &strings(&["feat", "master"]),
        &strings(&["origin/feat"]),
        &strings(&["origin"]),
    )
    .unwrap();
    assert!(matches!(src, BranchSource::Local(ref n) if n == "feat"));
}

#[test]
fn resolve_branch_arg_finds_remote_when_no_local() {
    let src = resolve_branch_arg(
        "origin/feat",
        &strings(&["master"]),
        &strings(&["origin/feat"]),
        &strings(&["origin"]),
    )
    .unwrap();
    match src {
        BranchSource::Remote { local, upstream } => {
            assert_eq!(local, "feat");
            assert_eq!(upstream, "origin/feat");
        }
        other => panic!("expected Remote, got {other:?}"),
    }
}

#[test]
fn resolve_branch_arg_creates_new_for_unknown_name() {
    let src = resolve_branch_arg("shiny", &strings(&["master"]), &vec![], &strings(&["origin"]))
        .unwrap();
    assert!(matches!(src, BranchSource::New(ref n) if n == "shiny"));
}

#[test]
fn resolve_branch_arg_rejects_unknown_remote_qualified_name() {
    let err = resolve_branch_arg(
        "origin/typo",
        &strings(&["master"]),
        &strings(&["origin/feat"]),
        &strings(&["origin"]),
    )
    .unwrap_err();
    let msg = err.message();
    assert!(msg.contains("unknown branch"), "expected typo guard, got: {msg}");
}

#[test]
fn resolve_branch_arg_remote_qualified_with_local_shadow_returns_local() {
    let src = resolve_branch_arg(
        "origin/feat",
        &strings(&["feat", "master"]),
        &strings(&["origin/feat"]),
        &strings(&["origin"]),
    )
    .unwrap();
    assert!(
        matches!(src, BranchSource::Local(ref n) if n == "feat"),
        "expected Local(feat) shadow, got {src:?}"
    );
}

#[test]
fn resolve_branch_arg_rejects_empty_arg() {
    let err = resolve_branch_arg("", &strings(&["master"]), &vec![], &vec![]).unwrap_err();
    let msg = err.message();
    assert!(msg.contains("cannot be empty"), "expected empty rejection, got: {msg}");

    let err = resolve_branch_arg("   ", &strings(&["master"]), &vec![], &vec![]).unwrap_err();
    let msg = err.message();
    assert!(msg.contains("cannot be empty"), "expected whitespace rejection, got: {msg}");
}

#[test]
fn resolve_branch_arg_slash_name_without_known_remote_is_new() {
    let src = resolve_branch_arg("feat/x", &strings(&["master"]), &vec![], &strings(&["origin"]))
        .unwrap();
    assert!(matches!(src, BranchSource::New(ref n) if n == "feat/x"));
    let err = resolve_branch_arg("origin/x", &vec![], &vec![], &strings(&["origin"])).unwrap_err();
    assert!(matches!(err, OpenError::UnknownBranch { ref arg, ref remote } if arg == "origin/x" && remote == "origin"));
}

#[test]
fn branch_source_names_and_worktree_sources() {
    let local = BranchSource::Local("feat".to_string());
    let remote = BranchSource::Remote { local: "x".to_string(), upstream: "origin/x".to_string() };
    let new = BranchSource::New("n".to_string());
    assert_eq!(local.branch_name(), "feat");
    assert_eq!(remote.branch_name(), "x");
    assert_eq!(new.branch_name(), "n");
    assert!(matches!(local.worktree_source(), WorktreeSource::ExistingLocal));
    assert!(matches!(remote.worktree_source(), WorktreeSource::TrackingRemote { ref upstream } if upstream == "origin/x"));
    assert!(matches!(new.worktree_source(), WorktreeSource::NewFromHead));
}

fn steps(events: Vec<ResolveEvent>, target: &str) -> Vec<ResolveAction> {
    events.iter().map(|e| resolve_step(e, target)).collect()
}

#[test]
fn resolve_worktree_path_reuses_registered_worktree_at_target() {
    // A registered worktree on another branch sits at the target path.
    let target = "/repo/staging";
    let actions = steps(
        vec![ResolveEvent::BranchWorktree(None), ResolveEvent::TargetExists(true), ResolveEvent::Registered(true)],
        target,
    );
    assert!(matches!(actions[0], ResolveAction::CheckTargetExists));
    assert!(matches!(actions[1], ResolveAction::CheckRegistered));
    match &actions[2] {
        ResolveAction::Reuse { path, note } => {
            assert_eq!(path, target);
            assert_eq!(*note, ReuseNote::Registered, "a registered worktree must be reused, not created");
        }
        other => panic!("a registered worktree must be reused, not created: {other:?}"),
    }
}

#[test]
fn resolve_worktree_path_reuses_orphaned_worktree_with_missing_records() {
    let target = "/repo/staging";
    let actions = steps(
        vec![
            ResolveEvent::TargetExists(true),
            ResolveEvent::Registered(false),
            ResolveEvent::RegisteredAfterRepair(false),
            ResolveEvent::LinkedDir(true),
        ],
        target,
    );
    assert!(matches!(actions[1], ResolveAction::RepairThenCheckRegistered));
    assert!(matches!(actions[2], ResolveAction::CheckLinkedDir));
    assert!(
        matches!(&actions[3], ResolveAction::Reuse { path, note: ReuseNote::Orphaned } if path == target),
        "an orphaned worktree's checkout should be reused"
    );
}

#[test]
fn resolve_worktree_path_repairs_drifted_worktree_records() {
    let target = "/repo/staging";
    let actions = steps(
        vec![ResolveEvent::Registered(false), ResolveEvent::RegisteredAfterRepair(true)],
        target,
    );
    assert!(matches!(actions[0], ResolveAction::RepairThenCheckRegistered));
    assert!(
        matches!(&actions[1], ResolveAction::Reuse { path, note: ReuseNote::Repaired } if path == target),
        "a repaired worktree must be reused, not created"
    );
}

#[test]
fn resolve_worktree_path_refuses_foreign_directory() {
    let action = resolve_step(&ResolveEvent::LinkedDir(false), "/repo/staging");
    match action {
        ResolveAction::Refuse(err) => {
            let msg = err.message();
            assert!(msg.contains("not a worktree of this repo"), "expected refusal to clobber foreign dir, got: {msg}");
            assert!(msg.starts_with("/repo/staging already exists"));
        }
        other => panic!("expected refusal, got {other:?}"),
    }
}

#[test]
fn resolve_worktree_path_creates_when_nothing_on_disk() {
    let action = resolve_step(&ResolveEvent::TargetExists(false), "/repo/fresh");
    assert!(matches!(action, ResolveAction::Add), "a brand-new branch with no directory should be created");
    let on_branch = resolve_step(&ResolveEvent::BranchWorktree(Some("/repo/feat".to_string())), "/repo/x");
    assert!(matches!(on_branch, ResolveAction::Reuse { ref path, note: ReuseNote::OnBranch } if path == "/repo/feat"));
}

fn wt(path: &str, branch: Option<&str>, is_bare: bool) -> Worktree {
    Worktree {
        path: path.to_string(),
        head: "deadbeef".to_string(),
        branch: branch.map(|b| b.to_string()),
        is_bare,
        locked: false,
    }
}

#[test]
fn find_existing_worktree_skips_bare_and_other_branches() {
    let wts = vec![
        wt("/repo", Some("refs/heads/feat"), true),
        wt("/repo/main", Some("refs/heads/main"), false),
        wt("/repo/feat", Some("refs/heads/feat"), false),
    ];
    assert_eq!(find_existing_worktree(&wts, "feat"), Some("/repo/feat".to_string()));
    assert_eq!(find_existing_worktree(&wts, "other"), None);
}

#[test]
fn existing_session_prefers_zellij_name() {
    let name = SessionName::new("grove", "feat/x");
    let sessions = vec![
        Session { name: "grove-feat-x".to_string() },
        Session { name: "grove:feat:x".to_string() },
    ];
    assert_eq!(existing_session_name(&sessions, &name, 100), Some("grove:feat:x".to_string()));
    let tmux_only = vec![Session { name: "grove-feat-x".to_string() }];
    assert_eq!(existing_session_name(&tmux_only, &name, 100), Some("grove-feat-x".to_string()));
    assert_eq!(existing_session_name(&vec![], &name, 100), None);
}

#[test]
fn new_branch_names_are_checked() {
    let locals = strings(&["main"]);
    assert_eq!(new_branch_problem("  ", &locals), Some(NewBranchProblem::Empty));
    assert_eq!(new_branch_problem("main", &locals), Some(NewBranchProblem::Exists));
    assert_eq!(new_branch_problem("fresh", &locals), None);
    assert_eq!(NewBranchProblem::Exists.message(), "a local branch with that name already exists");
}
