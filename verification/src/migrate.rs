//! Converting a legacy bare repository to the container layout: what is
//! moved where, which worktrees come along, and what a failed conversion
//! undoes.
use vstd::prelude::*;
use crate::git::{Worktree, WorktreeView, worktree_views};
use crate::text::{
    concat2, concat3, contains_char, has_char, has_prefix, join_path, join_spec, owned, strip_prefix,
    strip_prefix_spec, views,
};

verus! {

broadcast use vstd::string::group_string_axioms;

/// Why a migration step refuses.
#[derive(Debug)]
pub enum MigrateError {
    /// The staging path beside the repository already exists.
    StagingExists { path: String },
    /// A branch with `/` is not relocated automatically.
    NestedBranch { branch: String },
    /// The directory holds no legacy worktree (no `HEAD` file).
    NotLegacyWorktree { path: String },
    /// The checkout's new location is taken.
    CheckoutExists { path: String },
    /// The shell's working directory is inside the repository.
    InsideRepo { name: String, path: String },
    /// Some worktrees have uncommitted changes to tracked files.
    DirtyWorktrees { paths: Vec<String> },
}

impl MigrateError {
    /// The human-readable text of the error.
    pub fn message(&self) -> (r: String)
        ensures
            r@ == match self {
                MigrateError::StagingExists { path } => "Migration staging path already exists: "@
                    + path@,
                MigrateError::NestedBranch { .. } =>
                    "branch names containing '/' are not auto-relocated"@,
                MigrateError::NotLegacyWorktree { path } => path@
                    + " is not a recognizable legacy worktree"@,
                MigrateError::CheckoutExists { path } => path@ + " already exists"@,
                MigrateError::InsideRepo { name, path } => "Cannot migrate '"@ + name@
                    + "' while inside it ("@ + path@ + "). cd elsewhere and retry."@,
                MigrateError::DirtyWorktrees { .. } => "Commit or stash these changes, then retry"@,
            },
    {
        match self {
            MigrateError::StagingExists { path } => concat2(
                "Migration staging path already exists: ",
                path.as_str(),
            ),
            MigrateError::NestedBranch { .. } => owned(
                "branch names containing '/' are not auto-relocated",
            ),
            MigrateError::NotLegacyWorktree { path } => concat2(
                path.as_str(),
                " is not a recognizable legacy worktree",
            ),
            MigrateError::CheckoutExists { path } => concat2(path.as_str(), " already exists"),
            MigrateError::InsideRepo { name, path } => {
                let a = concat3("Cannot migrate '", name.as_str(), "' while inside it (");
                concat3(a.as_str(), path.as_str(), "). cd elsewhere and retry.")
            },
            MigrateError::DirtyWorktrees { .. } => owned(
                "Commit or stash these changes, then retry",
            ),
        }
    }
}

// ---------------------------------------------------------------------------
// Paths

/// Name for what `Path::strip_prefix` gives: the rest of `path` below
/// `base`, matched component by component, or `None` when `base` is not a
/// leading part of `path`.
pub uninterp spec fn path_strip_prefix(path: Seq<char>, base: Seq<char>) -> Option<Seq<char>>;

/// `Path::strip_prefix`, with the rest as a string. Both arguments are
/// UTF-8, and the rest is a run of whole components of `path`, so turning
/// it back into a string loses nothing.
#[verifier::external_body]
fn strip_path_prefix(path: &str, base: &str) -> (r: Option<String>)
    ensures
        match r {
            Some(s) => path_strip_prefix(path@, base@) == Some(s@),
            None => path_strip_prefix(path@, base@) is None,
        },
{
    std::path::Path::new(path).strip_prefix(base).ok().map(|p| p.to_string_lossy().into_owned())
}

/// Whether `path` lies within `base` (itself included), as
/// `Path::starts_with` decides: component by component.
pub open spec fn path_within(path: Seq<char>, base: Seq<char>) -> bool {
    path_strip_prefix(path, base) is Some
}

/// Whether the working directory `cwd` lies inside the repository at
/// `repo_path` (a migration renames that path, so it is refused then).
pub fn is_inside(cwd: &str, repo_path: &str) -> (r: bool)
    ensures
        r == path_within(cwd@, repo_path@),
{
    strip_path_prefix(cwd, repo_path).is_some()
}

/// The suffix of the staging directory.
pub open spec fn staging_suffix() -> Seq<char> {
    ".grove-migrate-tmp"@
}

/// Where the bare data is moved aside during a migration: beside the
/// repository, named after it with `.grove-migrate-tmp` appended.
pub fn staging_path(parent: &str, name: &str) -> (r: String)
    ensures
        r@ == join_spec(parent@, name@ + staging_suffix()),
{
    let file = concat2(name, ".grove-migrate-tmp");
    join_path(parent, file.as_str())
}

/// A staging directory left from an earlier attempt stops the migration.
pub fn check_staging(staging: &str, staging_exists: bool) -> (r: Result<(), MigrateError>)
    ensures
        r is Ok <==> !staging_exists,
        r matches Err(MigrateError::StagingExists { path }) ==> path@ == staging@,
{
    if staging_exists {
        Err(MigrateError::StagingExists { path: owned(staging) })
    } else {
        Ok(())
    }
}

/// The worktrees that come along: for each non-bare worktree on a local
/// branch whose path lies under the repository, the branch name and the
/// path relative to the repository.
pub open spec fn linked_spec(wts: Seq<WorktreeView>, repo: Seq<char>) -> Seq<(Seq<char>, Seq<char>)>
    decreases wts.len(),
{
    if wts.len() == 0 {
        seq![]
    } else {
        let rest = linked_spec(wts.drop_last(), repo);
        let w = wts.last();
        if w.is_bare {
            rest
        } else {
            match w.branch {
                None => rest,
                Some(b) => match strip_prefix_spec(b, "refs/heads/"@) {
                    None => rest,
                    Some(branch) => match path_strip_prefix(w.path, repo) {
                        None => rest,
                        Some(rel) => rest.push((branch, rel)),
                    },
                },
            }
        }
    }
}

/// Whether worktree `i` comes along in a migration of `repo`: not bare, on
/// a local branch (`refs/heads/…`), and lying under the repository.
pub open spec fn comes_along(wts: Seq<WorktreeView>, repo: Seq<char>) -> spec_fn(int) -> bool {
    |i: int|
        !wts[i].is_bare && wts[i].branch is Some && has_prefix(wts[i].branch->0, "refs/heads/"@)
            && path_strip_prefix(wts[i].path, repo) is Some
}

/// What worktree `i` contributes: its branch without `refs/heads/`, and its
/// path relative to the repository.
pub open spec fn relocated_as(wts: Seq<WorktreeView>, repo: Seq<char>) -> spec_fn(int) -> (
    Seq<char>,
    Seq<char>,
) {
    |i: int|
        (
            wts[i].branch->0.skip("refs/heads/"@.len() as int),
            path_strip_prefix(wts[i].path, repo)->0,
        )
}

/// The positions `0..n`.
pub open spec fn worktree_positions(n: int) -> Seq<int> {
    Seq::new(n as nat, |i: int| i)
}

proof fn lemma_linked_prefix(wts: Seq<WorktreeView>, repo: Seq<char>, m: int)
    requires
        0 <= m <= wts.len(),
    ensures
        linked_spec(wts.take(m), repo) == worktree_positions(m).filter(comes_along(wts, repo)).map_values(
            relocated_as(wts, repo),
        ),
    decreases m,
{
    reveal(Seq::filter);
    if m == 0 {
        assert(worktree_positions(0).filter(comes_along(wts, repo)) =~= Seq::<int>::empty());
    } else {
        lemma_linked_prefix(wts, repo, m - 1);
        assert(wts.take(m).drop_last() =~= wts.take(m - 1));
        assert(wts.take(m).last() == wts[m - 1]);
        assert(worktree_positions(m).drop_last() =~= worktree_positions(m - 1));
        assert(worktree_positions(m).last() == m - 1);
        let prev = worktree_positions(m - 1).filter(comes_along(wts, repo));
        if comes_along(wts, repo)(m - 1) {
            assert(worktree_positions(m).filter(comes_along(wts, repo)) == prev.push(m - 1));
            assert(prev.push(m - 1).map_values(relocated_as(wts, repo)) =~= prev.map_values(
                relocated_as(wts, repo),
            ).push(relocated_as(wts, repo)(m - 1)));
        } else {
            assert(worktree_positions(m).filter(comes_along(wts, repo)) == prev);
        }
    }
}

/// Law: the worktrees relocated by a migration are exactly the non-bare
/// worktrees on a local branch whose path lies under the repository, every
/// one of them, in the worktrees' order, each as its branch name (with
/// `refs/heads/` removed) and its path relative to the repository; so their
/// number is the number of such worktrees.
pub proof fn law_linked_are_all_local_worktrees_under_repo(wts: Seq<WorktreeView>, repo: Seq<char>)
    ensures
        linked_spec(wts, repo) == worktree_positions(wts.len() as int).filter(
            comes_along(wts, repo),
        ).map_values(relocated_as(wts, repo)),
        linked_spec(wts, repo).len() == worktree_positions(wts.len() as int).filter(
            comes_along(wts, repo),
        ).len(),
{
    lemma_linked_prefix(wts, repo, wts.len() as int);
    assert(wts.take(wts.len() as int) =~= wts);
}

/// The worktrees to relocate into the container, as (branch, path relative
/// to the repository).
pub fn linked_worktrees(worktrees: &Vec<Worktree>, repo_path: &str) -> (r: Vec<(String, String)>)
    ensures
        r@.map_values(|p: (String, String)| (p.0@, p.1@)) == linked_spec(
            worktree_views(worktrees@),
            repo_path@,
        ),
{
    let ghost wv = worktree_views(worktrees@);
    let mut r: Vec<(String, String)> = Vec::new();
    let mut i: usize = 0;
    while i < worktrees.len()
        invariant
            i <= worktrees.len(),
            wv == worktree_views(worktrees@),
            r@.map_values(|p: (String, String)| (p.0@, p.1@)) == linked_spec(
                wv.take(i as int),
                repo_path@,
            ),
        decreases worktrees.len() - i,
    {
        let ghost before = r@.map_values(|p: (String, String)| (p.0@, p.1@));
        assert(wv.take(i + 1).drop_last() =~= wv.take(i as int));
        let wt = &worktrees[i];
        if !wt.is_bare {
            if let Some(b) = &wt.branch {
                if let Some(branch) = strip_prefix(b.as_str(), "refs/heads/") {
                    if let Some(rel) = strip_path_prefix(wt.path.as_str(), repo_path) {
                        let ghost item = (branch@, rel@);
                        r.push((branch, rel));
                        assert(r@.map_values(|p: (String, String)| (p.0@, p.1@)) =~= before.push(
                            item,
                        ));
                    }
                }
            }
        }
        i = i + 1;
    }
    assert(wv.take(i as int) =~= wv);
    r
}

/// The worktrees whose changes must be checked before migrating: the
/// paths of the non-bare ones.
pub fn non_bare_paths(worktrees: &Vec<Worktree>) -> (r: Vec<String>)
    ensures
        views(r@) == worktree_views(worktrees@).filter(|w: WorktreeView| !w.is_bare).map_values(
            |w: WorktreeView| w.path,
        ),
{
    let ghost wv = worktree_views(worktrees@);
    let mut r: Vec<String> = Vec::new();
    let mut i: usize = 0;
    proof {
        reveal(Seq::filter);
        assert(wv.take(0).filter(|w: WorktreeView| !w.is_bare) =~= Seq::<WorktreeView>::empty());
    }
    while i < worktrees.len()
        invariant
            i <= worktrees.len(),
            wv == worktree_views(worktrees@),
            views(r@) == wv.take(i as int).filter(|w: WorktreeView| !w.is_bare).map_values(
                |w: WorktreeView| w.path,
            ),
        decreases worktrees.len() - i,
    {
        proof {
            reveal(Seq::filter);
            assert(wv.take(i + 1).drop_last() =~= wv.take(i as int));
        }
        let ghost before = wv.take(i as int).filter(|w: WorktreeView| !w.is_bare);
        if !worktrees[i].is_bare {
            let ghost old_v = views(r@);
            r.push(owned(worktrees[i].path.as_str()));
            assert(wv.take(i + 1).filter(|w: WorktreeView| !w.is_bare) == before.push(
                wv[i as int],
            ));
            assert(views(r@) =~= old_v.push(wv[i as int].path));
            assert(before.push(wv[i as int]).map_values(|w: WorktreeView| w.path) =~= before.map_values(
                |w: WorktreeView| w.path,
            ).push(wv[i as int].path));
        } else {
            assert(wv.take(i + 1).filter(|w: WorktreeView| !w.is_bare) == before);
        }
        i = i + 1;
    }
    assert(wv.take(i as int) =~= wv);
    r
}

/// Refuse to migrate while inside the repository, or while worktrees hold
/// uncommitted changes (`dirty[i]` for the `i`-th of `paths`).
pub fn check_migration(
    name: &str,
    repo_path: &str,
    inside: bool,
    paths: &Vec<String>,
    dirty: &Vec<bool>,
) -> (r: Result<(), MigrateError>)
    requires
        dirty.len() == paths.len(),
    ensures
        inside ==> (r matches Err(MigrateError::InsideRepo { name: n, path: p }) && n@ == name@
            && p@ == repo_path@),
        !inside ==> (r is Ok <==> forall|i: int| 0 <= i < dirty.len() ==> !dirty@[i]),
        !inside && r is Err ==> (r matches Err(MigrateError::DirtyWorktrees { paths: d })
            && views(d@) == dirty_spec(views(paths@), dirty@)),
{
    if inside {
        return Err(MigrateError::InsideRepo { name: owned(name), path: owned(repo_path) });
    }
    let d = dirty_paths(paths, dirty);
    proof {
        lemma_dirty_empty(views(paths@), dirty@);
    }
    if d.len() > 0 {
        Err(MigrateError::DirtyWorktrees { paths: d })
    } else {
        Ok(())
    }
}

/// The paths flagged dirty, in order.
pub open spec fn dirty_spec(paths: Seq<Seq<char>>, dirty: Seq<bool>) -> Seq<Seq<char>>
    decreases paths.len(),
{
    if paths.len() == 0 || dirty.len() == 0 {
        seq![]
    } else {
        let rest = dirty_spec(paths.drop_last(), dirty.drop_last());
        if dirty.last() {
            rest.push(paths.last())
        } else {
            rest
        }
    }
}

proof fn lemma_dirty_empty(paths: Seq<Seq<char>>, dirty: Seq<bool>)
    requires
        paths.len() == dirty.len(),
    ensures
        dirty_spec(paths, dirty).len() == 0 <==> forall|i: int| 0 <= i < dirty.len() ==> !dirty[i],
    decreases paths.len(),
{
    if paths.len() > 0 {
        lemma_dirty_empty(paths.drop_last(), dirty.drop_last());
        if dirty_spec(paths, dirty).len() == 0 {
            assert forall|i: int| 0 <= i < dirty.len() implies !dirty[i] by {
                if i < dirty.len() - 1 {
                    assert(dirty.drop_last()[i] == dirty[i]);
                }
            }
        }
        if forall|i: int| 0 <= i < dirty.len() ==> !dirty[i] {
            assert forall|i: int| 0 <= i < dirty.drop_last().len() implies !dirty.drop_last()[i] by {
                assert(dirty.drop_last()[i] == dirty[i]);
            }
            assert(!dirty[dirty.len() - 1]);
        }
    }
}

/// The paths of `paths` flagged in `dirty`.
fn dirty_paths(paths: &Vec<String>, dirty: &Vec<bool>) -> (r: Vec<String>)
    requires
        dirty.len() == paths.len(),
    ensures
        views(r@) == dirty_spec(views(paths@), dirty@),
{
    let ghost pv = views(paths@);
    let mut r: Vec<String> = Vec::new();
    let mut i: usize = 0;
    while i < paths.len()
        invariant
            dirty.len() == paths.len(),
            i <= paths.len(),
            pv == views(paths@),
            views(r@) == dirty_spec(pv.take(i as int), dirty@.take(i as int)),
        decreases paths.len() - i,
    {
        let ghost before = views(r@);
        assert(pv.take(i + 1).drop_last() =~= pv.take(i as int));
        assert(dirty@.take(i + 1).drop_last() =~= dirty@.take(i as int));
        if dirty[i] {
            r.push(owned(paths[i].as_str()));
            assert(views(r@) =~= before.push(pv[i as int]));
        }
        i = i + 1;
    }
    assert(pv.take(i as int) =~= pv);
    assert(dirty@.take(i as int) =~= dirty@);
    r
}

// ---------------------------------------------------------------------------
// Rolling back

/// After a failed conversion, the bare data is moved back to the staging
/// path only when it reached the container and the staging path is free.
pub fn rollback_restores_bare(bare_exists: bool, staging_exists: bool) -> (r: bool)
    ensures
        r == (bare_exists && !staging_exists),
{
    bare_exists && !staging_exists
}

// ---------------------------------------------------------------------------
// Relocating a worktree

/// Git's per-worktree administrative files, which the legacy layout kept
/// inside each checkout.
pub open spec fn admin_files_spec() -> Seq<Seq<char>> {
    seq![
        "HEAD"@,
        "ORIG_HEAD"@,
        "FETCH_HEAD"@,
        "MERGE_HEAD"@,
        "MERGE_MSG"@,
        "MERGE_MODE"@,
        "MERGE_RR"@,
        "CHERRY_PICK_HEAD"@,
        "REVERT_HEAD"@,
        "AUTO_MERGE"@,
        "BISECT_LOG"@,
        "BISECT_START"@,
        "COMMIT_EDITMSG"@,
        "index"@,
        "commondir"@,
        "gitdir"@,
        "packed-refs"@,
        "sparse-checkout"@,
        "shallow"@,
    ]
}

/// The paths of the administrative files that may sit in `worktree_dir`,
/// in the order of `admin_files_spec`.
pub fn admin_candidates(worktree_dir: &str) -> (r: Vec<String>)
    ensures
        r@.len() == admin_files_spec().len(),
        forall|i: int|
            0 <= i < r@.len() ==> (#[trigger] r@[i])@ == join_spec(
                worktree_dir@,
                admin_files_spec()[i],
            ),
{
    let names = vec![
        "HEAD",
        "ORIG_HEAD",
        "FETCH_HEAD",
        "MERGE_HEAD",
        "MERGE_MSG",
        "MERGE_MODE",
        "MERGE_RR",
        "CHERRY_PICK_HEAD",
        "REVERT_HEAD",
        "AUTO_MERGE",
        "BISECT_LOG",
        "BISECT_START",
        "COMMIT_EDITMSG",
        "index",
        "commondir",
        "gitdir",
        "packed-refs",
        "sparse-checkout",
        "shallow",
    ];
    assert(names@.map_values(|s: &str| s@) =~= admin_files_spec());
    let mut r: Vec<String> = Vec::new();
    let mut i: usize = 0;
    while i < names.len()
        invariant
            names@.map_values(|s: &str| s@) == admin_files_spec(),
            i <= names.len(),
            r@.len() == i,
            forall|k: int|
                0 <= k < i ==> (#[trigger] r@[k])@ == join_spec(
                    worktree_dir@,
                    admin_files_spec()[k],
                ),
        decreases names.len() - i,
    {
        assert(names@[i as int]@ == admin_files_spec()[i as int]);
        r.push(join_path(worktree_dir, names[i]));
        i = i + 1;
    }
    r
}

/// The administrative entries found in a legacy checkout: the candidates
/// that are files, then `logs` when it is git's (it holds a `logs/HEAD`
/// file).
pub open spec fn admin_entries_spec(
    candidates: Seq<Seq<char>>,
    is_file: Seq<bool>,
    logs: Seq<char>,
    git_logs: bool,
) -> Seq<Seq<char>> {
    dirty_spec(candidates, is_file) + (if git_logs {
        seq![logs]
    } else {
        seq![]
    })
}

/// Git's administrative entries in the checkout `worktree_dir`, given
/// which candidates (`admin_candidates`) are files and whether `logs` is a
/// directory holding a `HEAD` file.
pub fn admin_entries(worktree_dir: &str, is_file: &Vec<bool>, git_logs: bool) -> (r: Vec<String>)
    requires
        is_file.len() == admin_files_spec().len(),
    ensures
        views(r@) == admin_entries_spec(
            admin_files_spec().map_values(|n: Seq<char>| join_spec(worktree_dir@, n)),
            is_file@,
            join_spec(worktree_dir@, "logs"@),
            git_logs,
        ),
{
    let candidates = admin_candidates(worktree_dir);
    assert(views(candidates@) =~= admin_files_spec().map_values(
        |n: Seq<char>| join_spec(worktree_dir@, n),
    ));
    let mut found = dirty_paths(&candidates, is_file);
    let ghost before = views(found@);
    if git_logs {
        found.push(join_path(worktree_dir, "logs"));
        assert(views(found@) =~= before + seq![join_spec(worktree_dir@, "logs"@)]);
    } else {
        assert(views(found@) =~= before + Seq::<Seq<char>>::empty());
    }
    found
}

/// Where one legacy worktree moves: its tangled directory inside the
/// (moved) bare data, its new checkout in the container, and its new
/// administrative directory.
#[derive(Debug)]
pub struct RelocationPlan {
    pub tangled: String,
    pub new_checkout: String,
    pub new_admin: String,
}

/// Plan the relocation of the worktree of `branch`, found at `rel` relative
/// to the bare data. A branch with `/` is refused: its administrative
/// directory never collided with the checkout.
pub fn relocation_plan(container: &str, bare: &str, branch: &str, rel: &str) -> (r: Result<
    RelocationPlan,
    MigrateError,
>)
    ensures
        has_char(branch@, '/') ==> (r matches Err(MigrateError::NestedBranch { branch: b })
            && b@ == branch@),
        !has_char(branch@, '/') ==> (r matches Ok(p) && p.tangled@ == join_spec(bare@, rel@)
            && p.new_checkout@ == join_spec(container@, branch@) && p.new_admin@ == join_spec(
            join_spec(bare@, "worktrees"@),
            branch@,
        )),
{
    if contains_char(branch, '/') {
        return Err(MigrateError::NestedBranch { branch: owned(branch) });
    }
    let admin_root = join_path(bare, "worktrees");
    Ok(
        RelocationPlan {
            tangled: join_path(bare, rel),
            new_checkout: join_path(container, branch),
            new_admin: join_path(admin_root.as_str(), branch),
        },
    )
}

impl RelocationPlan {
    /// Check what the filesystem shows before moving: the tangled directory
    /// must hold a `HEAD` file, and the new checkout must not exist.
    pub fn check(&self, tangled_head_is_file: bool, checkout_exists: bool) -> (r: Result<
        (),
        MigrateError,
    >)
        ensures
            !tangled_head_is_file ==> (r matches Err(MigrateError::NotLegacyWorktree { path })
                && path@ == self.tangled@),
            tangled_head_is_file && checkout_exists ==> (r matches Err(
                MigrateError::CheckoutExists { path },
            ) && path@ == self.new_checkout@),
            tangled_head_is_file && !checkout_exists ==> r is Ok,
    {
        if !tangled_head_is_file {
            return Err(MigrateError::NotLegacyWorktree { path: owned(self.tangled.as_str()) });
        }
        if checkout_exists {
            return Err(MigrateError::CheckoutExists { path: owned(self.new_checkout.as_str()) });
        }
        Ok(())
    }

    /// Where an administrative entry called `file_name` moves to.
    pub fn admin_destination(&self, file_name: &str) -> (r: String)
        ensures
            r@ == join_spec(self.new_admin@, file_name@),
    {
        join_path(self.new_admin.as_str(), file_name)
    }

    /// The contents of the new administrative directory's `commondir`: the
    /// bare data, two levels up.
    pub fn commondir_contents(&self) -> (r: String)
        ensures
            r@ == "../..\n"@,
    {
        owned("../..\n")
    }

    /// The contents of the new administrative directory's `gitdir`: the
    /// checkout's `.git` file.
    pub fn admin_gitdir_contents(&self) -> (r: String)
        ensures
            r@ == join_spec(self.new_checkout@, ".git"@) + "\n"@,
    {
        let git_file = join_path(self.new_checkout.as_str(), ".git");
        concat2(git_file.as_str(), "\n")
    }

    /// The contents of the checkout's `.git` file: a pointer to the new
    /// administrative directory.
    pub fn checkout_gitdir_contents(&self) -> (r: String)
        ensures
            r@ == "gitdir: "@ + self.new_admin@ + "\n"@,
    {
        concat3("gitdir: ", self.new_admin.as_str(), "\n")
    }
}

// ---------------------------------------------------------------------------
// The conversion as a sequence of filesystem steps

/// One filesystem operation of a conversion or of its rollback.
#[derive(Debug, Clone)]
pub enum FsOp {
    /// Move `from` to `to`.
    Rename { from: String, to: String },
    /// Create the directory `path` (its parent must exist).
    CreateDir { path: String },
    /// Write `contents` to the file `path`.
    WriteFile { path: String, contents: String },
    /// Remove the file `path`.
    RemoveFile { path: String },
    /// Remove the empty directory `path`.
    RemoveDir { path: String },
}

/// What an [`FsOp`] does, over plain paths.
pub enum FsOpView {
    Rename(Seq<char>, Seq<char>),
    CreateDir(Seq<char>),
    WriteFile(Seq<char>, Seq<char>),
    RemoveFile(Seq<char>),
    RemoveDir(Seq<char>),
}

impl View for FsOp {
    type V = FsOpView;

    open spec fn view(&self) -> FsOpView {
        match self {
            FsOp::Rename { from, to } => FsOpView::Rename(from@, to@),
            FsOp::CreateDir { path } => FsOpView::CreateDir(path@),
            FsOp::WriteFile { path, contents } => FsOpView::WriteFile(path@, contents@),
            FsOp::RemoveFile { path } => FsOpView::RemoveFile(path@),
            FsOp::RemoveDir { path } => FsOpView::RemoveDir(path@),
        }
    }
}

/// The views of a list of operations.
pub open spec fn ops_view(ops: Seq<FsOp>) -> Seq<FsOpView> {
    ops.map_values(|o: FsOp| o@)
}

/// The paths a conversion touches: the repository (which becomes the
/// container), the staging path beside it, the bare data's place inside the
/// container, and the container's `.git` pointer file.
pub struct MigrationPlan {
    pub repo: String,
    pub staging: String,
    pub bare: String,
    pub pointer: String,
}

/// The paths of a [`MigrationPlan`].
pub struct PlanView {
    pub repo: Seq<char>,
    pub staging: Seq<char>,
    pub bare: Seq<char>,
    pub pointer: Seq<char>,
}

impl View for MigrationPlan {
    type V = PlanView;

    open spec fn view(&self) -> PlanView {
        PlanView { repo: self.repo@, staging: self.staging@, bare: self.bare@, pointer: self.pointer@ }
    }
}

/// The number of forward steps of a conversion.
pub const MIGRATION_STEPS: usize = 4;

/// The forward steps, in order: move the bare repository aside, create the
/// container at its old path, move the bare data into the container, write
/// the `.git` pointer.
pub open spec fn forward_spec(p: PlanView) -> Seq<FsOpView> {
    seq![
        FsOpView::Rename(p.repo, p.staging),
        FsOpView::CreateDir(p.repo),
        FsOpView::Rename(p.staging, p.bare),
        FsOpView::WriteFile(p.pointer, crate::git::GITDIR_FILE_CONTENTS@),
    ]
}

/// The rollback after a failed step past the move-aside: move the bare
/// data back to the staging path (only when it reached the container and
/// the staging path is free), remove the pointer file, remove the
/// container, and move the bare repository back to its path.
pub open spec fn undo_spec(p: PlanView, bare_exists: bool, staging_exists: bool) -> Seq<FsOpView> {
    let back = if bare_exists && !staging_exists {
        seq![FsOpView::Rename(p.bare, p.staging)]
    } else {
        Seq::empty()
    };
    back + seq![
        FsOpView::RemoveFile(p.pointer),
        FsOpView::RemoveDir(p.repo),
        FsOpView::Rename(p.staging, p.repo),
    ]
}

/// How a step went. After a failure, whether the bare data's place in the
/// container and the staging path exist.
#[derive(Debug, Clone, Copy, PartialEq, Eq, Structural)]
pub enum StepOutcome {
    Succeeded,
    Failed { bare_exists: bool, staging_exists: bool },
}

/// What to do after a step.
#[derive(Debug)]
pub enum MigrationAction {
    /// Run this next forward step.
    Run(FsOp),
    /// All steps succeeded: the repository is converted.
    Converted,
    /// The move-aside failed: nothing changed, report the failure.
    Abort,
    /// A later step failed: run these operations, each whatever the
    /// previous one gave, then report that the migration was rolled back.
    RollBack(Vec<FsOp>),
}

/// What a [`MigrationAction`] says, over plain values.
pub enum MigrationActionView {
    Run(FsOpView),
    Converted,
    Abort,
    RollBack(Seq<FsOpView>),
}

impl View for MigrationAction {
    type V = MigrationActionView;

    open spec fn view(&self) -> MigrationActionView {
        match self {
            MigrationAction::Run(op) => MigrationActionView::Run(op@),
            MigrationAction::Converted => MigrationActionView::Converted,
            MigrationAction::Abort => MigrationActionView::Abort,
            MigrationAction::RollBack(ops) => MigrationActionView::RollBack(ops_view(ops@)),
        }
    }
}

/// The decision after forward step `step` went as `outcome`.
pub open spec fn next_spec(p: PlanView, step: int, outcome: StepOutcome) -> MigrationActionView {
    match outcome {
        StepOutcome::Succeeded => if step + 1 < forward_spec(p).len() {
            MigrationActionView::Run(forward_spec(p)[step + 1])
        } else {
            MigrationActionView::Converted
        },
        StepOutcome::Failed { bare_exists, staging_exists } => if step == 0 {
            MigrationActionView::Abort
        } else {
            MigrationActionView::RollBack(undo_spec(p, bare_exists, staging_exists))
        },
    }
}

impl MigrationPlan {
    /// The plan for converting the repository at `repo`, with its bare data
    /// moved aside to `staging`.
    pub fn new(repo: &str, staging: &str) -> (r: MigrationPlan)
        ensures
            r@.repo == repo@,
            r@.staging == staging@,
            r@.bare == join_spec(repo@, ".bare"@),
            r@.pointer == join_spec(repo@, ".git"@),
    {
        MigrationPlan {
            repo: owned(repo),
            staging: owned(staging),
            bare: join_path(repo, ".bare"),
            pointer: join_path(repo, ".git"),
        }
    }

    fn op_rename(from: &String, to: &String) -> (r: FsOp)
        ensures
            r@ == FsOpView::Rename(from@, to@),
    {
        FsOp::Rename { from: owned(from.as_str()), to: owned(to.as_str()) }
    }

    /// Forward step `step` (counted from 0).
    pub fn forward_step(&self, step: usize) -> (r: FsOp)
        requires
            step < MIGRATION_STEPS,
        ensures
            r@ == forward_spec(self@)[step as int],
    {
        if step == 0 {
            Self::op_rename(&self.repo, &self.staging)
        } else if step == 1 {
            FsOp::CreateDir { path: owned(self.repo.as_str()) }
        } else if step == 2 {
            Self::op_rename(&self.staging, &self.bare)
        } else {
            FsOp::WriteFile {
                path: owned(self.pointer.as_str()),
                contents: owned(crate::git::GITDIR_FILE_CONTENTS),
            }
        }
    }

    /// The operations that undo a conversion whose step past the move-aside
    /// failed.
    pub fn undo_steps(&self, bare_exists: bool, staging_exists: bool) -> (r: Vec<FsOp>)
        ensures
            ops_view(r@) == undo_spec(self@, bare_exists, staging_exists),
    {
        let mut r: Vec<FsOp> = Vec::new();
        if rollback_restores_bare(bare_exists, staging_exists) {
            r.push(Self::op_rename(&self.bare, &self.staging));
        }
        r.push(FsOp::RemoveFile { path: owned(self.pointer.as_str()) });
        r.push(FsOp::RemoveDir { path: owned(self.repo.as_str()) });
        r.push(Self::op_rename(&self.staging, &self.repo));
        assert(ops_view(r@) =~= undo_spec(self@, bare_exists, staging_exists));
        r
    }

    /// Why forward step `step` failed, as reported.
    pub fn step_failure(&self, step: usize) -> (r: String)
        requires
            step < MIGRATION_STEPS,
        ensures
            r@ == if step == 0 {
                "Failed to move "@ + self.repo@ + " aside"@
            } else if step == 1 {
                "Failed to create container "@ + self.repo@
            } else if step == 2 {
                "Failed to move bare data into "@ + self.bare@
            } else {
                "Failed to write "@ + self.pointer@
            },
    {
        if step == 0 {
            concat3("Failed to move ", self.repo.as_str(), " aside")
        } else if step == 1 {
            concat2("Failed to create container ", self.repo.as_str())
        } else if step == 2 {
            concat2("Failed to move bare data into ", self.bare.as_str())
        } else {
            concat2("Failed to write ", self.pointer.as_str())
        }
    }

    /// The report after a rollback.
    pub fn rolled_back_message(&self) -> (r: String)
        ensures
            r@ == "Migration rolled back; "@ + self.repo@ + " left unchanged"@,
    {
        concat3("Migration rolled back; ", self.repo.as_str(), " left unchanged")
    }

    /// What to do after forward step `step` went as `outcome`.
    pub fn next(&self, step: usize, outcome: StepOutcome) -> (r: MigrationAction)
        requires
            step < MIGRATION_STEPS,
        ensures
            r@ == next_spec(self@, step as int, outcome),
    {
        match outcome {
            StepOutcome::Succeeded => {
                if step + 1 < MIGRATION_STEPS {
                    MigrationAction::Run(self.forward_step(step + 1))
                } else {
                    MigrationAction::Converted
                }
            },
            StepOutcome::Failed { bare_exists, staging_exists } => {
                if step == 0 {
                    MigrationAction::Abort
                } else {
                    MigrationAction::RollBack(self.undo_steps(bare_exists, staging_exists))
                }
            },
        }
    }
}


// ---------------------------------------------------------------------------
// What the steps do to the paths of a plan

/// What the repository's path holds.
pub enum RepoSlot {
    /// Nothing.
    Absent,
    /// The legacy bare repository.
    BareData,
    /// The container directory.
    Container,
}

/// The state of a plan's paths: what the repository path holds, and
/// whether the staging path, the bare data's place in the container and
/// the pointer file hold anything.
pub struct LayoutModel {
    pub repo: RepoSlot,
    pub staging: bool,
    pub bare: bool,
    pub pointer: bool,
}

/// The state before a conversion: the legacy bare repository at its path,
/// nothing else.
pub open spec fn legacy_layout() -> LayoutModel {
    LayoutModel { repo: RepoSlot::BareData, staging: false, bare: false, pointer: false }
}

/// The state after a conversion: the container with its bare data and its
/// pointer file, the staging path free.
pub open spec fn container_layout() -> LayoutModel {
    LayoutModel { repo: RepoSlot::Container, staging: false, bare: true, pointer: true }
}

/// The four paths of a plan are distinct.
pub open spec fn plan_paths_distinct(p: PlanView) -> bool {
    &&& p.repo != p.staging
    &&& p.repo != p.bare
    &&& p.repo != p.pointer
    &&& p.staging != p.bare
    &&& p.staging != p.pointer
    &&& p.bare != p.pointer
}

/// What `op` does to the plan's paths when it succeeds, or `None` when the
/// filesystem refuses it: a rename needs its source and a free target in an
/// existing directory, a directory is created only where nothing is, a file
/// is written only inside the container, removed only where it is, and a
/// directory is removed only when empty. A path that lies inside the
/// container exists only while the container does.
pub open spec fn apply_op(p: PlanView, l: LayoutModel, op: FsOpView) -> Option<LayoutModel> {
    match op {
        FsOpView::Rename(from, to) => if from == p.repo && to == p.staging {
            if l.repo is BareData && !l.staging {
                Some(LayoutModel { repo: RepoSlot::Absent, staging: true, bare: l.bare, pointer: l.pointer })
            } else {
                None
            }
        } else if from == p.staging && to == p.bare {
            if l.staging && l.repo is Container && !l.bare {
                Some(LayoutModel { repo: l.repo, staging: false, bare: true, pointer: l.pointer })
            } else {
                None
            }
        } else if from == p.bare && to == p.staging {
            if l.bare && !l.staging {
                Some(LayoutModel { repo: l.repo, staging: true, bare: false, pointer: l.pointer })
            } else {
                None
            }
        } else if from == p.staging && to == p.repo {
            if l.staging && l.repo is Absent {
                Some(LayoutModel { repo: RepoSlot::BareData, staging: false, bare: l.bare, pointer: l.pointer })
            } else {
                None
            }
        } else {
            None
        },
        FsOpView::CreateDir(path) => if path == p.repo && l.repo is Absent {
            Some(LayoutModel { repo: RepoSlot::Container, staging: l.staging, bare: false, pointer: false })
        } else {
            None
        },
        FsOpView::WriteFile(path, _) => if path == p.pointer && l.repo is Container {
            Some(LayoutModel { repo: l.repo, staging: l.staging, bare: l.bare, pointer: true })
        } else {
            None
        },
        FsOpView::RemoveFile(path) => if path == p.pointer && l.pointer {
            Some(LayoutModel { repo: l.repo, staging: l.staging, bare: l.bare, pointer: false })
        } else {
            None
        },
        FsOpView::RemoveDir(path) => if path == p.repo && l.repo is Container && !l.bare && !l.pointer {
            Some(LayoutModel { repo: RepoSlot::Absent, staging: l.staging, bare: l.bare, pointer: l.pointer })
        } else {
            None
        },
    }
}

/// Runs `ops` in order, each whatever the previous one gave: a refused
/// operation changes nothing.
pub open spec fn run_ignoring(p: PlanView, l: LayoutModel, ops: Seq<FsOpView>) -> LayoutModel
    decreases ops.len(),
{
    if ops.len() == 0 {
        l
    } else {
        let next = match apply_op(p, l, ops[0]) {
            Some(n) => n,
            None => l,
        };
        run_ignoring(p, next, ops.drop_first())
    }
}

/// The state after the first `k` forward steps all succeeded, from the
/// legacy layout (`None` if one is refused).
pub open spec fn forward_state(p: PlanView, k: nat) -> Option<LayoutModel>
    decreases k,
{
    if k == 0 {
        Some(legacy_layout())
    } else {
        match forward_state(p, (k - 1) as nat) {
            Some(l) => apply_op(p, l, forward_spec(p)[k - 1]),
            None => None,
        }
    }
}

/// The states a failure of forward step `k` may leave: a refused step
/// changes nothing, except that a failed write of the pointer file may
/// leave the file behind.
pub open spec fn failure_leaves(p: PlanView, k: nat, after: LayoutModel) -> bool {
    match forward_state(p, k) {
        Some(before) => after == before || (k == 3 && after == LayoutModel {
            repo: before.repo,
            staging: before.staging,
            bare: before.bare,
            pointer: true,
        }),
        None => false,
    }
}

/// A conversion that succeeds step by step ends in the container layout,
/// and the decision after each step is the next step, then `Converted`:
/// no step of a rollback is ever issued.
pub proof fn law_conversion_completes(p: PlanView)
    requires
        plan_paths_distinct(p),
    ensures
        forward_state(p, 4) == Some(container_layout()),
        forall|k: int|
            0 <= k < 3 ==> #[trigger] next_spec(p, k, StepOutcome::Succeeded)
                == MigrationActionView::Run(forward_spec(p)[k + 1]),
        next_spec(p, 3, StepOutcome::Succeeded) == MigrationActionView::Converted,
{
    reveal_with_fuel(forward_state, 5);
}

/// A failed conversion leaves the repository as it was. When forward step
/// `k` fails, leaving the paths in `after`, the decision (taken on whether
/// the bare data's place and the staging path exist then) is to give up
/// at once if nothing had moved yet, and otherwise to roll back; running
/// the rollback's operations, each whatever the previous gave, brings the
/// paths back to the legacy layout.
pub proof fn law_failed_conversion_restores_repo(p: PlanView, k: nat, after: LayoutModel)
    requires
        plan_paths_distinct(p),
        k < 4,
        failure_leaves(p, k, after),
    ensures
        match next_spec(p, k as int, StepOutcome::Failed { bare_exists: after.bare, staging_exists: after.staging }) {
            MigrationActionView::Abort => k == 0 && after == legacy_layout(),
            MigrationActionView::RollBack(ops) => k > 0 && run_ignoring(p, after, ops) == legacy_layout(),
            _ => false,
        },
{
    reveal_with_fuel(forward_state, 5);
    reveal_with_fuel(run_ignoring, 5);
}

} // verus!
