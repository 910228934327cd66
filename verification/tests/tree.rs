use grove::git::Worktree;
use grove::multiplexer::Session;
use grove::multiplexer::SessionName;
use grove::tree::{
    merged_candidate_step, merged_removal_plan, MergedEvent, MergedStep,
    classify_worktree, close_choices, extract_branch_name, is_repo_session, is_stale,
    merged_scan_branch, orphaned_sessions, stale_branches, tier_approved, tier_branches,
    worktree_list_line, CloseAction, CloseStep, DoneReason, MergedCandidate, MergedOutcome,
    PruneOutcome, PruneSummaryRow,
};

fn worktree(path: &str, is_bare: bool) -> Worktree {
    Worktree {
        path: path.to_string(),
        head: "deadbeef".to_string(),
        branch: Some("refs/heads/main".to_string()),
        is_bare,
        locked: false,
    }
}

/// A non-bare, unlocked worktree on `branch`.
fn branch_worktree(branch: &str) -> Worktree {
    Worktree {
        path: format!("/repo/{branch}"),
        head: "deadbeef".to_string(),
        branch: Some(format!("refs/heads/{branch}")),
        is_bare: false,
        locked: false,
    }
}

#[test]
fn existing_directory_is_not_stale() {
    // The directory exists on disk.
    let wt = worktree("/tmp", false);
    assert!(!is_stale(&wt, true));
}

#[test]
fn missing_directory_is_stale() {
    let wt = worktree("/no/such/grove/worktree", false);
    assert!(is_stale(&wt, false));
}

#[test]
fn bare_entry_is_never_stale() {
    // Bare points at the repo itself; even a missing path must not count.
    let wt = worktree("/no/such/grove/repo", true);
    assert!(!is_stale(&wt, false));
}

#[test]
fn classify_skips_bare() {
    let wt = worktree("/repo", true);
    assert_eq!(classify_worktree(&wt, "main", true, true), None);
}

#[test]
fn classify_skips_base_branch() {
    let wt = branch_worktree("main");
    assert_eq!(classify_worktree(&wt, "main", true, false), None);
}

#[test]
fn classify_skips_detached() {
    let mut wt = branch_worktree("feat");
    wt.branch = None;
    assert_eq!(classify_worktree(&wt, "main", true, true), None);
}

#[test]
fn classify_skips_locked() {
    let mut wt = branch_worktree("feat");
    wt.locked = true;
    assert_eq!(classify_worktree(&wt, "main", true, true), None);
}

#[test]
fn classify_prefers_merged_over_gone() {
    let wt = branch_worktree("feat");
    assert_eq!(classify_worktree(&wt, "main", true, true), Some(DoneReason::Merged));
}

#[test]
fn classify_reports_gone_when_not_merged() {
    let wt = branch_worktree("feat");
    assert_eq!(classify_worktree(&wt, "main", false, true), Some(DoneReason::Gone));
}

#[test]
fn classify_skips_when_neither() {
    let wt = branch_worktree("feat");
    assert_eq!(classify_worktree(&wt, "main", false, false), None);
}

#[test]
fn scan_skips_what_classification_skips() {
    assert_eq!(merged_scan_branch(&branch_worktree("feat"), "main"), Some("feat".to_string()));
    assert_eq!(merged_scan_branch(&branch_worktree("main"), "main"), None);
    let mut locked = branch_worktree("feat");
    locked.locked = true;
    assert_eq!(merged_scan_branch(&locked, "main"), None);
    let mut tag = branch_worktree("feat");
    tag.branch = Some("refs/tags/v1".to_string());
    assert_eq!(merged_scan_branch(&tag, "main"), None);
}

#[test]
fn branch_names_and_session_ownership() {
    assert_eq!(extract_branch_name(Some("refs/heads/feat/x")), "feat/x");
    assert_eq!(extract_branch_name(Some("weird")), "weird");
    assert_eq!(extract_branch_name(None), "(detached)");
    assert!(is_repo_session("grove", "grove/main"));
    assert!(is_repo_session("grove", "grove-main"));
    assert!(is_repo_session("grove", "grove:main"));
    assert!(!is_repo_session("grove", "grovel:main"));
    assert!(!is_repo_session("grove", "groveother"));
}

#[test]
fn stale_branches_name_the_missing_worktrees() {
    let wts = vec![worktree("/repo", true), branch_worktree("a"), branch_worktree("b")];
    let names = stale_branches(&wts, &vec![false, false, true]);
    assert_eq!(names, vec!["a".to_string()]);
}

#[test]
fn list_line_shows_markers_and_short_head() {
    let mut wt = branch_worktree("feat");
    wt.head = "0123456789abcdef".to_string();
    assert_eq!(worktree_list_line(&wt, true), "  refs/heads/feat [stale]  01234567  /repo/feat");
    let mut bare = worktree("/repo", true);
    bare.branch = None;
    bare.head = "abc".to_string();
    assert_eq!(worktree_list_line(&bare, false), "  (detached) [bare]  abc  /repo");
    let mut wide = branch_worktree("w");
    wide.head = "aaaaaaaé".to_string(); // byte 8 falls inside `é`
    assert_eq!(worktree_list_line(&wide, false), "  refs/heads/w  aaaaaaaé  /repo/w");
}

#[test]
fn orphaned_sessions_and_close_choices() {
    let wts = vec![worktree("/repo", true), branch_worktree("feat")];
    let sessions = vec![
        Session { name: "repo-feat".to_string() },
        Session { name: "repo-gone".to_string() },
        Session { name: "other-x".to_string() },
        Session { name: "repo/old".to_string() },
    ];
    let orphans = orphaned_sessions("repo", &wts, &sessions, 100);
    let names: Vec<&str> = orphans.iter().map(|s| s.name.as_str()).collect();
    assert_eq!(names, vec!["repo-gone", "repo/old"]);

    let choices = close_choices(&wts, &orphans);
    let labels: Vec<&str> = choices.iter().map(|(l, _)| l.as_str()).collect();
    assert_eq!(labels, vec!["feat", "repo-gone [orphaned session]", "repo/old [orphaned session]"]);

    let steps = choices[0].1.steps("repo", 100);
    assert!(matches!(&steps[0], CloseStep::KillSessionQuietly { name } if name == "repo:feat"));
    assert!(matches!(&steps[1], CloseStep::KillSessionQuietly { name } if name == "repo-feat"));
    assert!(matches!(&steps[2], CloseStep::RemoveWorktreeOrPrune { path } if path == "/repo/feat"));
    let steps = choices[1].1.steps("repo", 100);
    assert_eq!(steps.len(), 1);
    assert!(matches!(&steps[0], CloseStep::KillSession { name } if name == "repo-gone"));
    assert!(matches!(&choices[2].1, CloseAction::OrphanedSession { session_name } if session_name == "repo/old"));
}

#[test]
fn merged_tiers_and_tally() {
    let cands = vec![
        MergedCandidate { worktree_path: "/r/a".to_string(), branch: "a".to_string(), reason: DoneReason::Merged },
        MergedCandidate { worktree_path: "/r/b".to_string(), branch: "b".to_string(), reason: DoneReason::Gone },
        MergedCandidate { worktree_path: "/r/c".to_string(), branch: "c".to_string(), reason: DoneReason::Merged },
    ];
    assert_eq!(tier_branches(&cands, DoneReason::Merged), vec!["a".to_string(), "c".to_string()]);
    assert_eq!(tier_branches(&cands, DoneReason::Gone), vec!["b".to_string()]);
    assert!(tier_approved(DoneReason::Merged, true, false));
    assert!(!tier_approved(DoneReason::Gone, true, false));

    let mut outcome = MergedOutcome::default();
    outcome.record(DoneReason::Merged, true);
    outcome.record(DoneReason::Merged, false);
    outcome.record(DoneReason::Gone, true);
    assert_eq!(outcome, MergedOutcome { merged_removed: 1, gone_removed: 1, kept_dirty: 1 });
}

#[test]
fn prune_summary_and_touched() {
    let quiet = PruneOutcome { stale_worktrees: 0, orphan_dirs: 0, merged: MergedOutcome::default() };
    assert!(!quiet.touched());
    assert_eq!(quiet.summary("grove", false, false), "Pruned 0 stale worktree(s) for 'grove'");

    let busy = PruneOutcome {
        stale_worktrees: 12,
        orphan_dirs: 3,
        merged: MergedOutcome { merged_removed: 2, gone_removed: 0, kept_dirty: 1 },
    };
    assert!(busy.touched());
    assert_eq!(
        busy.summary("grove", true, true),
        "Pruned 12 stale worktree(s), removed 3 orphan dir(s), removed 2 merged + 0 gone worktree(s), kept 1 (uncommitted changes) for 'grove'"
    );
    assert_eq!(
        busy.summary("grove", false, true),
        "Pruned 12 stale worktree(s), removed 2 merged + 0 gone worktree(s), kept 1 (uncommitted changes) for 'grove'"
    );
    let kept_only = PruneOutcome {
        stale_worktrees: 0,
        orphan_dirs: 0,
        merged: MergedOutcome { merged_removed: 0, gone_removed: 0, kept_dirty: 1 },
    };
    assert!(kept_only.touched());

    let row = PruneSummaryRow::new("grove", &busy);
    assert_eq!(row.repo, "grove");
    assert_eq!((row.stale, row.orphans, row.merged, row.gone, row.kept), (12, 3, 2, 0, 1));
}

#[test]
fn own_sessions_are_recognised_in_both_forms() {
    let n = SessionName::new("repo", "feat/x");
    assert!(is_repo_session("repo", &n.as_tmux_name()));
    assert!(is_repo_session("repo", &n.as_zellij_name_with_max_bytes(100)));
    // A zellij session whose worktree is gone is offered as orphaned.
    let wts = vec![worktree("/repo", true)];
    let sessions = vec![Session { name: "repo:gone".to_string() }];
    let orphans = orphaned_sessions("repo", &wts, &sessions, 100);
    assert_eq!(orphans.len(), 1);
}

fn cand(branch: &str, reason: DoneReason) -> MergedCandidate {
    MergedCandidate { worktree_path: format!("/r/{branch}"), branch: branch.to_string(), reason }
}

#[test]
fn merged_removal_steps() {
    let cands = vec![cand("a", DoneReason::Merged), cand("b", DoneReason::Gone), cand("c", DoneReason::Merged)];
    assert_eq!(merged_removal_plan(&cands, true, false), vec![0, 2]);
    assert_eq!(merged_removal_plan(&cands, false, true), vec![1]);
    assert!(merged_removal_plan(&cands, false, false).is_empty());

    let mut outcome = MergedOutcome::default();
    let steps = merged_candidate_step(&cands[0], "r", 100, true, false, &MergedEvent::Start, &mut outcome);
    assert_eq!(steps.len(), 3);
    assert!(matches!(&steps[0], MergedStep::KillSessionQuietly { name } if name == "r:a"));
    assert!(matches!(&steps[1], MergedStep::KillSessionQuietly { name } if name == "r-a"));
    assert!(matches!(&steps[2], MergedStep::RemoveWorktree { path } if path == "/r/a"));
    assert_eq!(outcome, MergedOutcome::default());

    // Removed: the merged branch is deleted with -d.
    let steps = merged_candidate_step(&cands[0], "r", 100, true, false, &MergedEvent::Removed(true), &mut outcome);
    assert!(matches!(&steps[0], MergedStep::DeleteBranch { branch, force: false } if branch == "a"));
    assert_eq!(outcome.merged_removed, 1);

    // Kept: no branch delete, counted as kept.
    let steps = merged_candidate_step(&cands[2], "r", 100, true, false, &MergedEvent::Removed(false), &mut outcome);
    assert!(steps.is_empty());
    assert_eq!(outcome.kept_dirty, 1);

    // A gone branch is deleted with -D.
    let steps = merged_candidate_step(&cands[1], "r", 100, false, true, &MergedEvent::Removed(true), &mut outcome);
    assert!(matches!(&steps[0], MergedStep::DeleteBranch { branch, force: true } if branch == "b"));
    assert_eq!(outcome, MergedOutcome { merged_removed: 1, gone_removed: 1, kept_dirty: 1 });

    // A declined tier gets nothing and is not counted.
    let steps = merged_candidate_step(&cands[1], "r", 100, true, false, &MergedEvent::Removed(true), &mut outcome);
    assert!(steps.is_empty());
    assert_eq!(outcome, MergedOutcome { merged_removed: 1, gone_removed: 1, kept_dirty: 1 });
}

/// Runs a whole merged-branch prune, git answering candidate `i`'s removal
/// with `removed[i]`; returns every step with its candidate and the counts.
fn run_prune(
    cands: &[MergedCandidate],
    remove_merged: bool,
    remove_gone: bool,
    removed: &[bool],
) -> (Vec<(usize, MergedStep)>, MergedOutcome) {
    let mut steps = Vec::new();
    let mut outcome = MergedOutcome::default();
    for (i, c) in cands.iter().enumerate() {
        for event in [MergedEvent::Start, MergedEvent::Removed(removed[i])] {
            for s in merged_candidate_step(c, "r", 100, remove_merged, remove_gone, &event, &mut outcome) {
                steps.push((i, s));
            }
        }
    }
    (steps, outcome)
}

#[test]
fn whole_prune_keeps_dirty_branch_and_skips_declined_tier() {
    let cands = vec![cand("a", DoneReason::Merged), cand("b", DoneReason::Gone), cand("c", DoneReason::Merged)];
    // Merged tier approved, gone tier declined; git refuses to remove "c".
    let (steps, outcome) = run_prune(&cands, true, false, &[true, true, false]);
    assert!(steps.iter().all(|(i, _)| *i != 1));
    assert!(!steps.iter().any(|(_, s)| matches!(s, MergedStep::DeleteBranch { branch, .. } if branch == "c")));
    assert!(steps.iter().any(|(i, s)| *i == 2 && matches!(s, MergedStep::RemoveWorktree { path } if path == "/r/c")));
    assert_eq!(outcome, MergedOutcome { merged_removed: 1, gone_removed: 0, kept_dirty: 1 });
    // Against git removing "c" too: one fewer kept, one more merged removed.
    let (_, removed_all) = run_prune(&cands, true, false, &[true, true, true]);
    assert_eq!(removed_all, MergedOutcome { merged_removed: 2, gone_removed: 0, kept_dirty: 0 });
    // Both tiers declined: nothing at all.
    let (steps, outcome) = run_prune(&cands, false, false, &[true, true, true]);
    assert!(steps.is_empty());
    assert_eq!(outcome, MergedOutcome::default());
}
