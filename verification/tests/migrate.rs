use grove::git::Worktree;
use grove::migrate::{
    admin_candidates, admin_entries, check_migration, check_staging, is_inside, linked_worktrees,
    non_bare_paths, relocation_plan, rollback_restores_bare, staging_path, FsOp, MigrateError,
    MigrationAction, MigrationPlan, StepOutcome, MIGRATION_STEPS,
};

fn wt(path: &str, branch: Option<&str>, is_bare: bool) -> Worktree {
    Worktree {
        path: path.to_string(),
        head: "1".to_string(),
        branch: branch.map(|b| b.to_string()),
        is_bare,
        locked: false,
    }
}

#[test]
fn migration_paths_and_linked_worktrees() {
    assert_eq!(staging_path("/work", "legacy"), "/work/legacy.grove-migrate-tmp");
    assert!(matches!(check_staging("/s", true), Err(MigrateError::StagingExists { ref path }) if path == "/s"));
    assert!(check_staging("/s", false).is_ok());
    let wts = vec![
        wt("/work/legacy", None, true),
        wt("/work/legacy/worktrees/feat", Some("refs/heads/feat"), false),
        wt("/elsewhere/x", Some("refs/heads/x"), false),
        wt("/work/legacy/worktrees/det", None, false),
    ];
    assert_eq!(
        linked_worktrees(&wts, "/work/legacy"),
        vec![("feat".to_string(), "worktrees/feat".to_string())]
    );
    assert_eq!(
        non_bare_paths(&wts),
        vec!["/work/legacy/worktrees/feat", "/elsewhere/x", "/work/legacy/worktrees/det"]
    );
    assert!(is_inside("/work/legacy/worktrees", "/work/legacy"));
    assert!(is_inside("/work/legacy", "/work/legacy"));
    assert!(!is_inside("/work/legacy2", "/work/legacy"));
    assert!(rollback_restores_bare(true, false));
    assert!(!rollback_restores_bare(true, true));
    assert!(!rollback_restores_bare(false, false));
}

#[test]
fn migration_refusals() {
    let paths = vec!["/a".to_string(), "/b".to_string()];
    let err = check_migration("legacy", "/work/legacy", true, &paths, &vec![false, false]).unwrap_err();
    assert_eq!(err.message(), "Cannot migrate 'legacy' while inside it (/work/legacy). cd elsewhere and retry.");
    let err = check_migration("legacy", "/work/legacy", false, &paths, &vec![false, true]).unwrap_err();
    assert!(matches!(err, MigrateError::DirtyWorktrees { ref paths } if paths == &vec!["/b".to_string()]));
    assert!(check_migration("legacy", "/work/legacy", false, &paths, &vec![false, false]).is_ok());
}

#[test]
fn relocation_plans() {
    let plan = relocation_plan("/c", "/c/.bare", "feat", "worktrees/feat").unwrap();
    assert_eq!(plan.tangled, "/c/.bare/worktrees/feat");
    assert_eq!(plan.new_checkout, "/c/feat");
    assert_eq!(plan.new_admin, "/c/.bare/worktrees/feat");
    assert!(plan.check(true, false).is_ok());
    assert!(matches!(plan.check(false, false), Err(MigrateError::NotLegacyWorktree { .. })));
    assert!(matches!(plan.check(true, true), Err(MigrateError::CheckoutExists { ref path }) if path == "/c/feat"));
    assert_eq!(plan.admin_destination("HEAD"), "/c/.bare/worktrees/feat/HEAD");
    assert_eq!(plan.commondir_contents(), "../..\n");
    assert_eq!(plan.admin_gitdir_contents(), "/c/feat/.git\n");
    assert_eq!(plan.checkout_gitdir_contents(), "gitdir: /c/.bare/worktrees/feat\n");
    let err = relocation_plan("/c", "/c/.bare", "feat/x", "r").unwrap_err();
    assert!(matches!(err, MigrateError::NestedBranch { ref branch } if branch == "feat/x"));
    assert_eq!(err.message(), "branch names containing '/' are not auto-relocated");
}

#[test]
fn admin_entries_pick_files_and_git_logs() {
    let candidates = admin_candidates("/w");
    assert_eq!(candidates.len(), 19);
    assert_eq!(candidates[0], "/w/HEAD");
    assert_eq!(candidates[18], "/w/shallow");
    let mut present = vec![false; 19];
    present[0] = true;
    present[13] = true;
    assert_eq!(admin_entries("/w", &present, false), vec!["/w/HEAD", "/w/index"]);
    assert_eq!(admin_entries("/w", &present, true), vec!["/w/HEAD", "/w/index", "/w/logs"]);
}

fn is_rename(op: &FsOp, a: &str, b: &str) -> bool {
    matches!(op, FsOp::Rename { from, to } if from == a && to == b)
}

#[test]
fn conversion_steps_in_order() {
    let plan = MigrationPlan::new("/w/repo", "/w/repo.grove-migrate-tmp");
    assert_eq!(plan.bare, "/w/repo/.bare");
    assert_eq!(plan.pointer, "/w/repo/.git");
    assert_eq!(MIGRATION_STEPS, 4);
    assert!(is_rename(&plan.forward_step(0), "/w/repo", "/w/repo.grove-migrate-tmp"));
    assert!(matches!(plan.forward_step(1), FsOp::CreateDir { ref path } if path == "/w/repo"));
    assert!(is_rename(&plan.forward_step(2), "/w/repo.grove-migrate-tmp", "/w/repo/.bare"));
    assert!(matches!(plan.forward_step(3),
        FsOp::WriteFile { ref path, ref contents } if path == "/w/repo/.git" && contents == "gitdir: ./.bare\n"));
    for step in 0..3 {
        match plan.next(step, StepOutcome::Succeeded) {
            MigrationAction::Run(op) => assert_eq!(format!("{op:?}"), format!("{:?}", plan.forward_step(step + 1))),
            other => panic!("unexpected {other:?}"),
        }
    }
    assert!(matches!(plan.next(3, StepOutcome::Succeeded), MigrationAction::Converted));
}

#[test]
fn failed_conversion_rolls_back() {
    let plan = MigrationPlan::new("/w/repo", "/w/repo.grove-migrate-tmp");
    let failed = |bare_exists, staging_exists| StepOutcome::Failed { bare_exists, staging_exists };
    // The move-aside failing leaves nothing to undo.
    assert!(matches!(plan.next(0, failed(false, false)), MigrationAction::Abort));
    // Creating the container failed: the bare repository goes back.
    match plan.next(1, failed(false, true)) {
        MigrationAction::RollBack(ops) => {
            assert_eq!(ops.len(), 3);
            assert!(matches!(ops[0], FsOp::RemoveFile { ref path } if path == "/w/repo/.git"));
            assert!(matches!(ops[1], FsOp::RemoveDir { ref path } if path == "/w/repo"));
            assert!(is_rename(&ops[2], "/w/repo.grove-migrate-tmp", "/w/repo"));
        }
        other => panic!("unexpected {other:?}"),
    }
    // Writing the pointer failed after the bare data moved in.
    match plan.next(3, failed(true, false)) {
        MigrationAction::RollBack(ops) => {
            assert_eq!(ops.len(), 4);
            assert!(is_rename(&ops[0], "/w/repo/.bare", "/w/repo.grove-migrate-tmp"));
            assert!(is_rename(&ops[3], "/w/repo.grove-migrate-tmp", "/w/repo"));
        }
        other => panic!("unexpected {other:?}"),
    }
    // The bare data is not moved back over an occupied staging path.
    match plan.next(2, failed(true, true)) {
        MigrationAction::RollBack(ops) => assert_eq!(ops.len(), 3),
        other => panic!("unexpected {other:?}"),
    }
    assert_eq!(plan.step_failure(0), "Failed to move /w/repo aside");
    assert_eq!(plan.step_failure(1), "Failed to create container /w/repo");
    assert_eq!(plan.step_failure(2), "Failed to move bare data into /w/repo/.bare");
    assert_eq!(plan.step_failure(3), "Failed to write /w/repo/.git");
    assert_eq!(plan.rolled_back_message(), "Migration rolled back; /w/repo left unchanged");
}
