//! Opening a branch: which branch the user means, where its worktree is, and
//! whether its session already runs.
use vstd::prelude::*;
use crate::git::{Worktree, WorktreeSource, WorktreeSourceView, WorktreeView, worktree_views};
use crate::multiplexer::{Session, SessionName, shorten_spec, tmux_name_spec, zellij_full_name};
use crate::text::{
    concat2, concat3, contains_str, has_char, is_sorted_perm, owned, sort_strings, split_once,
    split_once_spec, str_eq, trim, trim_spec, views,
};
use crate::tree::session_names;

verus! {

broadcast use vstd::string::group_string_axioms;

// ---------------------------------------------------------------------------
// What the user picked

/// What the user picked: a branch to open and how it comes to exist.
#[derive(Debug)]
pub enum BranchSource {
    /// An existing local branch, opened as it is.
    Local(String),
    /// A remote-tracking ref: `local` is the branch to create, `upstream` the
    /// remote ref (such as `origin/feat`).
    Remote { local: String, upstream: String },
    /// A new branch from HEAD, of the given name.
    New(String),
}

/// A `BranchSource` as plain values.
pub enum BranchSourceView {
    Local(Seq<char>),
    Remote { local: Seq<char>, upstream: Seq<char> },
    New(Seq<char>),
}

impl View for BranchSource {
    type V = BranchSourceView;

    open spec fn view(&self) -> BranchSourceView {
        match self {
            BranchSource::Local(n) => BranchSourceView::Local(n@),
            BranchSource::Remote { local, upstream } => BranchSourceView::Remote {
                local: local@,
                upstream: upstream@,
            },
            BranchSource::New(n) => BranchSourceView::New(n@),
        }
    }
}

/// The local branch a source produces.
pub open spec fn branch_name_spec(b: BranchSourceView) -> Seq<char> {
    match b {
        BranchSourceView::Local(n) => n,
        BranchSourceView::Remote { local, .. } => local,
        BranchSourceView::New(n) => n,
    }
}

/// How `git worktree add` materializes a source's branch.
pub open spec fn worktree_source_spec(b: BranchSourceView) -> WorktreeSourceView {
    match b {
        BranchSourceView::Local(_) => WorktreeSourceView::ExistingLocal,
        BranchSourceView::Remote { upstream, .. } => WorktreeSourceView::TrackingRemote(upstream),
        BranchSourceView::New(_) => WorktreeSourceView::NewFromHead,
    }
}

impl BranchSource {
    /// The local branch name this source produces, for session naming and
    /// the worktree path.
    pub fn branch_name(&self) -> (r: &str)
        ensures
            r@ == branch_name_spec(self@),
    {
        match self {
            BranchSource::Local(name) => name.as_str(),
            BranchSource::Remote { local, .. } => local.as_str(),
            BranchSource::New(name) => name.as_str(),
        }
    }

    /// How to add a worktree for this source: check out a local branch,
    /// track the remote ref, or branch off HEAD.
    pub fn worktree_source(&self) -> (r: WorktreeSource)
        ensures
            r@ == worktree_source_spec(self@),
    {
        match self {
            BranchSource::Local(_) => WorktreeSource::ExistingLocal,
            BranchSource::Remote { upstream, .. } => WorktreeSource::TrackingRemote {
                upstream: owned(upstream.as_str()),
            },
            BranchSource::New(_) => WorktreeSource::NewFromHead,
        }
    }
}

// ---------------------------------------------------------------------------
// Errors

/// Why a branch could not be opened.
#[derive(Debug)]
pub enum OpenError {
    /// The branch argument is empty or only whitespace.
    EmptyBranch,
    /// `arg` names a known remote but no such remote ref exists.
    UnknownBranch { arg: String, remote: String },
    /// Something that is not a worktree of the repo occupies `path`.
    ForeignDirectory { path: String },
}

/// An `OpenError` as plain values.
pub enum OpenErrorView {
    EmptyBranch,
    UnknownBranch { arg: Seq<char>, remote: Seq<char> },
    ForeignDirectory { path: Seq<char> },
}

impl View for OpenError {
    type V = OpenErrorView;

    open spec fn view(&self) -> OpenErrorView {
        match self {
            OpenError::EmptyBranch => OpenErrorView::EmptyBranch,
            OpenError::UnknownBranch { arg, remote } => OpenErrorView::UnknownBranch {
                arg: arg@,
                remote: remote@,
            },
            OpenError::ForeignDirectory { path } => OpenErrorView::ForeignDirectory {
                path: path@,
            },
        }
    }
}

impl OpenError {
    /// The human-readable text of the error.
    pub fn message(&self) -> (r: String)
        ensures
            r@ == match self {
                OpenError::EmptyBranch => "branch name cannot be empty"@,
                OpenError::UnknownBranch { arg, remote } => "unknown branch '"@ + arg@ + "': '"@
                    + remote@
                    + "' is a remote but the ref does not exist. Did you mean to create '"@ + arg@
                    + "' as a new branch? It would nest under a directory named '"@ + remote@
                    + "' \u{2014} refusing."@,
                OpenError::ForeignDirectory { path } => path@
                    + " already exists but is not a worktree of this repo; remove it or choose another branch."@,
            },
    {
        match self {
            OpenError::EmptyBranch => owned("branch name cannot be empty"),
            OpenError::UnknownBranch { arg, remote } => {
                let a = concat3("unknown branch '", arg.as_str(), "': '");
                let b = concat3(
                    a.as_str(),
                    remote.as_str(),
                    "' is a remote but the ref does not exist. Did you mean to create '",
                );
                let c = concat3(
                    b.as_str(),
                    arg.as_str(),
                    "' as a new branch? It would nest under a directory named '",
                );
                concat3(c.as_str(), remote.as_str(), "' \u{2014} refusing.")
            },
            OpenError::ForeignDirectory { path } => concat2(
                path.as_str(),
                " already exists but is not a worktree of this repo; remove it or choose another branch.",
            ),
        }
    }
}

// ---------------------------------------------------------------------------
// The branch picker

/// The label of the picker's "new branch" entry.
pub open spec fn new_label() -> Seq<char> {
    "[new]    + create new branch"@
}

/// The picker entries for the local branches `sl`, in that order.
pub open spec fn local_entries_spec(sl: Seq<Seq<char>>) -> Seq<(Seq<char>, BranchSourceView)> {
    Seq::new(sl.len(), |i: int| ("[local]  "@ + sl[i], BranchSourceView::Local(sl[i])))
}

/// The picker entries for the remote refs `sr`, in that order: a ref
/// without `/`, or whose branch part (after the first `/`) names a local
/// branch, is left out.
pub open spec fn remote_entries_spec(sr: Seq<Seq<char>>, locals: Seq<Seq<char>>) -> Seq<
    (Seq<char>, BranchSourceView),
>
    decreases sr.len(),
{
    if sr.len() == 0 {
        seq![]
    } else {
        let rest = remote_entries_spec(sr.drop_last(), locals);
        match split_once_spec(sr.last(), '/') {
            None => rest,
            Some((_remote, branch)) => if locals.contains(branch) {
                rest
            } else {
                rest.push(
                    (
                        "[remote] "@ + sr.last(),
                        BranchSourceView::Remote { local: branch, upstream: sr.last() },
                    ),
                )
            },
        }
    }
}

/// The picker's entries, given the locals and remote refs in sorted order:
/// the "new branch" entry, then the locals, then the remote refs that no
/// local shadows.
pub open spec fn picker_spec(sl: Seq<Seq<char>>, sr: Seq<Seq<char>>, locals: Seq<Seq<char>>) -> Seq<
    (Seq<char>, BranchSourceView),
> {
    seq![(new_label(), BranchSourceView::New(Seq::empty()))] + local_entries_spec(sl)
        + remote_entries_spec(sr, locals)
}

/// The views of picker entries.
pub open spec fn entry_views(v: Seq<(String, BranchSource)>) -> Seq<(Seq<char>, BranchSourceView)> {
    v.map_values(|e: (String, BranchSource)| (e.0@, e.1@))
}

/// The branch picker's list: `[new]` first, then the local branches sorted,
/// then the remote refs sorted, leaving out each remote ref whose branch
/// part is also a local branch.
pub fn build_picker_entries(locals: &Vec<String>, remote_refs: &Vec<String>) -> (r: Vec<
    (String, BranchSource),
>)
    ensures
        exists|sl: Seq<Seq<char>>, sr: Seq<Seq<char>>|
            is_sorted_perm(sl, views(locals@)) && is_sorted_perm(sr, views(remote_refs@))
                && entry_views(r@) == #[trigger] picker_spec(sl, sr, views(locals@)),
{
    let mut entries: Vec<(String, BranchSource)> = Vec::new();
    entries.push((owned("[new]    + create new branch"), BranchSource::New(String::new())));
    let sorted_locals = sort_strings(locals);
    let ghost sl = views(sorted_locals@);
    let mut i: usize = 0;
    assert(entry_views(entries@) =~= seq![(new_label(), BranchSourceView::New(Seq::empty()))]);
    while i < sorted_locals.len()
        invariant
            i <= sorted_locals.len(),
            sl == views(sorted_locals@),
            entry_views(entries@) == seq![(new_label(), BranchSourceView::New(Seq::empty()))]
                + local_entries_spec(sl.take(i as int)),
        decreases sorted_locals.len() - i,
    {
        let ghost before = entry_views(entries@);
        let name = sorted_locals[i].as_str();
        entries.push((concat2("[local]  ", name), BranchSource::Local(owned(name))));
        assert(local_entries_spec(sl.take(i + 1)) =~= local_entries_spec(sl.take(i as int)).push(
            ("[local]  "@ + sl[i as int], BranchSourceView::Local(sl[i as int])),
        ));
        assert(entry_views(entries@) =~= before.push(
            ("[local]  "@ + sl[i as int], BranchSourceView::Local(sl[i as int])),
        ));
        i = i + 1;
    }
    assert(sl.take(i as int) =~= sl);
    let ghost head = entry_views(entries@);
    let sorted_remotes = sort_strings(remote_refs);
    let ghost sr = views(sorted_remotes@);
    let ghost lv = views(locals@);
    let mut j: usize = 0;
    assert(head =~= head + remote_entries_spec(sr.take(0), lv));
    while j < sorted_remotes.len()
        invariant
            j <= sorted_remotes.len(),
            sr == views(sorted_remotes@),
            lv == views(locals@),
            entry_views(entries@) == head + remote_entries_spec(sr.take(j as int), lv),
        decreases sorted_remotes.len() - j,
    {
        let ghost before = entry_views(entries@);
        let remote_ref = sorted_remotes[j].as_str();
        assert(sr.take(j + 1).drop_last() =~= sr.take(j as int));
        match split_once(remote_ref, '/') {
            Some((_remote, branch)) => {
                let shadowed = contains_str(locals, branch.as_str());
                assert(shadowed == lv.contains(branch@)) by {
                    if shadowed {
                        let k = choose|k: int| 0 <= k < locals@.len() && (#[trigger] locals@[k])@
                            == branch@;
                        assert(lv[k] == branch@);
                    }
                    if lv.contains(branch@) {
                        let k = choose|k: int| 0 <= k < lv.len() && lv[k] == branch@;
                        assert(locals@[k]@ == branch@);
                    }
                }
                if !shadowed {
                    let label = concat2("[remote] ", remote_ref);
                    entries.push(
                        (label, BranchSource::Remote { local: branch, upstream: owned(remote_ref) }),
                    );
                    assert(entry_views(entries@) =~= before.push(
                        (
                            "[remote] "@ + sr[j as int],
                            BranchSourceView::Remote { local: branch@, upstream: sr[j as int] },
                        ),
                    ));
                }
            },
            None => {},
        }
        j = j + 1;
    }
    assert(sr.take(j as int) =~= sr);
    assert(is_sorted_perm(sl, views(locals@)) && is_sorted_perm(sr, views(remote_refs@))
        && entry_views(entries@) == picker_spec(sl, sr, views(locals@)));
    entries
}

/// Law: no remote entry of the picker creates a branch that already exists
/// locally, and every remote entry tracks the ref it shows.
pub proof fn law_picker_hides_shadowed_remotes(
    sr: Seq<Seq<char>>,
    locals: Seq<Seq<char>>,
    k: int,
)
    requires
        0 <= k < remote_entries_spec(sr, locals).len(),
    ensures
        remote_entries_spec(sr, locals)[k].1 matches BranchSourceView::Remote { local, upstream }
            && !locals.contains(local) && remote_entries_spec(sr, locals)[k].0 == "[remote] "@
            + upstream && sr.contains(upstream),
    decreases sr.len(),
{
    if sr.len() > 0 {
        let rest = remote_entries_spec(sr.drop_last(), locals);
        if k < rest.len() {
            law_picker_hides_shadowed_remotes(sr.drop_last(), locals, k);
            let u = rest[k].1->upstream;
            let j = choose|j: int| 0 <= j < sr.drop_last().len() && sr.drop_last()[j] == u;
            assert(sr[j] == u);
        } else {
            assert(sr[sr.len() - 1] == sr.last());
        }
    }
}

// ---------------------------------------------------------------------------
// Resolving a branch argument

/// Every remote ref holds a `/` (as `git branch -r` lists them, the
/// remote's HEAD left out).
pub open spec fn refs_have_slash(refs: Seq<Seq<char>>) -> bool {
    forall|i: int| 0 <= i < refs.len() ==> has_char(#[trigger] refs[i], '/')
}

/// What a branch argument resolves to, given the local branches, the remote
/// refs and the remotes: empty or blank is refused; an exact local branch
/// is opened; an exact remote ref is tracked, unless its branch part is
/// already a local branch, which is opened instead; `<known remote>/<rest>`
/// with no such ref is refused as a likely typo; anything else is a new
/// branch.
pub open spec fn resolve_arg_spec(
    arg: Seq<char>,
    locals: Seq<Seq<char>>,
    refs: Seq<Seq<char>>,
    remotes: Seq<Seq<char>>,
) -> Result<BranchSourceView, OpenErrorView> {
    if trim_spec(arg).len() == 0 {
        Err(OpenErrorView::EmptyBranch)
    } else if locals.contains(arg) {
        Ok(BranchSourceView::Local(arg))
    } else if refs.contains(arg) {
        let branch = split_once_spec(arg, '/').unwrap().1;
        if locals.contains(branch) {
            Ok(BranchSourceView::Local(branch))
        } else {
            Ok(BranchSourceView::Remote { local: branch, upstream: arg })
        }
    } else {
        match split_once_spec(arg, '/') {
            Some((remote, _rest)) => if remotes.contains(remote) {
                Err(OpenErrorView::UnknownBranch { arg: arg, remote: remote })
            } else {
                Ok(BranchSourceView::New(arg))
            },
            None => Ok(BranchSourceView::New(arg)),
        }
    }
}

/// Law: the argument resolves as the picker would show it: a local branch
/// is opened as it is, and a remote ref whose branch exists locally opens
/// the local branch rather than tracking the ref.
pub proof fn law_resolve_prefers_locals(
    arg: Seq<char>,
    locals: Seq<Seq<char>>,
    refs: Seq<Seq<char>>,
    remotes: Seq<Seq<char>>,
)
    requires
        trim_spec(arg).len() > 0,
    ensures
        locals.contains(arg) ==> resolve_arg_spec(arg, locals, refs, remotes) == Ok::<
            BranchSourceView,
            OpenErrorView,
        >(BranchSourceView::Local(arg)),
        !locals.contains(arg) && refs.contains(arg) && split_once_spec(arg, '/') is Some
            && locals.contains(split_once_spec(arg, '/').unwrap().1) ==> resolve_arg_spec(
            arg,
            locals,
            refs,
            remotes,
        ) == Ok::<BranchSourceView, OpenErrorView>(
            BranchSourceView::Local(split_once_spec(arg, '/').unwrap().1),
        ),
        resolve_arg_spec(arg, locals, refs, remotes) is Err ==> !locals.contains(arg)
            && !refs.contains(arg),
{
}

/// The view of a result of `resolve_branch_arg`.
pub open spec fn resolve_result_view(r: Result<BranchSource, OpenError>) -> Result<
    BranchSourceView,
    OpenErrorView,
> {
    match r {
        Ok(b) => Ok(b@),
        Err(e) => Err(e@),
    }
}

/// Whether `s` is one of the strings of `v`.
fn member(v: &Vec<String>, s: &str) -> (r: bool)
    ensures
        r == views(v@).contains(s@),
{
    let r = contains_str(v, s);
    proof {
        if r {
            let k = choose|k: int| 0 <= k < v@.len() && (#[trigger] v@[k])@ == s@;
            assert(views(v@)[k] == s@);
        }
        if views(v@).contains(s@) {
            let k = choose|k: int| 0 <= k < views(v@).len() && views(v@)[k] == s@;
            assert(v@[k]@ == s@);
        }
    }
    r
}

/// Resolve a positional branch argument against the repository's local
/// branches, remote refs and remotes; see `resolve_arg_spec`.
pub fn resolve_branch_arg(
    arg: &str,
    locals: &Vec<String>,
    remote_refs: &Vec<String>,
    remotes: &Vec<String>,
) -> (r: Result<BranchSource, OpenError>)
    requires
        refs_have_slash(views(remote_refs@)),
    ensures
        resolve_result_view(r) == resolve_arg_spec(
            arg@,
            views(locals@),
            views(remote_refs@),
            views(remotes@),
        ),
{
    let trimmed = trim(arg);
    if trimmed.as_str().is_empty() {
        return Err(OpenError::EmptyBranch);
    }
    if member(locals, arg) {
        return Ok(BranchSource::Local(owned(arg)));
    }
    if member(remote_refs, arg) {
        proof {
            let k = choose|k: int|
                0 <= k < views(remote_refs@).len() && views(remote_refs@)[k] == arg@;
            assert(has_char(views(remote_refs@)[k], '/'));
        }
        let (_remote, branch) = match split_once(arg, '/') {
            Some(p) => p,
            None => {
                proof {
                    crate::text::lemma_find_from(arg@, '/', 0);
                }
                return Ok(BranchSource::New(owned(arg)));
            },
        };
        if member(locals, branch.as_str()) {
            return Ok(BranchSource::Local(branch));
        }
        return Ok(BranchSource::Remote { local: branch, upstream: owned(arg) });
    }
    match split_once(arg, '/') {
        Some((maybe_remote, _rest)) => {
            if member(remotes, maybe_remote.as_str()) {
                return Err(OpenError::UnknownBranch { arg: owned(arg), remote: maybe_remote });
            }
            Ok(BranchSource::New(owned(arg)))
        },
        None => Ok(BranchSource::New(owned(arg))),
    }
}

/// Why a name typed for a new branch is refused.
#[derive(Debug, Clone, Copy, PartialEq, Eq, Structural)]
pub enum NewBranchProblem {
    /// Empty or only whitespace.
    Empty,
    /// A local branch of that name exists.
    Exists,
}

impl NewBranchProblem {
    /// The text shown at the prompt.
    pub fn message(&self) -> (r: &'static str)
        ensures
            r@ == match self {
                NewBranchProblem::Empty => "branch name cannot be empty"@,
                NewBranchProblem::Exists => "a local branch with that name already exists"@,
            },
    {
        match self {
            NewBranchProblem::Empty => "branch name cannot be empty",
            NewBranchProblem::Exists => "a local branch with that name already exists",
        }
    }
}

/// What is wrong with `input` as the name of a new branch, if anything.
pub fn new_branch_problem(input: &str, locals: &Vec<String>) -> (r: Option<NewBranchProblem>)
    ensures
        r == (if trim_spec(input@).len() == 0 {
            Some(NewBranchProblem::Empty)
        } else if views(locals@).contains(input@) {
            Some(NewBranchProblem::Exists)
        } else {
            None::<NewBranchProblem>
        }),
{
    let trimmed = trim(input);
    if trimmed.as_str().is_empty() {
        Some(NewBranchProblem::Empty)
    } else if member(locals, input) {
        Some(NewBranchProblem::Exists)
    } else {
        None
    }
}

// ---------------------------------------------------------------------------
// Finding and reusing worktrees

/// The path of the first non-bare worktree on `refs/heads/<branch>`.
pub open spec fn find_worktree_spec(wts: Seq<WorktreeView>, branch: Seq<char>) -> Option<Seq<char>>
    decreases wts.len(),
{
    if wts.len() == 0 {
        None
    } else if wts[0].branch == Some("refs/heads/"@ + branch) && !wts[0].is_bare {
        Some(wts[0].path)
    } else {
        find_worktree_spec(wts.drop_first(), branch)
    }
}

/// The path of a worktree already checked out on `branch`, if any.
pub fn find_existing_worktree(worktrees: &Vec<Worktree>, branch: &str) -> (r: Option<String>)
    ensures
        match r {
            Some(p) => find_worktree_spec(worktree_views(worktrees@), branch@) == Some(p@),
            None => find_worktree_spec(worktree_views(worktrees@), branch@) is None,
        },
{
    let needle = concat2("refs/heads/", branch);
    let ghost wv = worktree_views(worktrees@);
    let mut i: usize = 0;
    assert(wv.skip(0) =~= wv);
    while i < worktrees.len()
        invariant
            i <= worktrees.len(),
            wv == worktree_views(worktrees@),
            needle@ == "refs/heads/"@ + branch@,
            find_worktree_spec(wv, branch@) == find_worktree_spec(wv.skip(i as int), branch@),
        decreases worktrees.len() - i,
    {
        assert(wv.skip(i as int).drop_first() =~= wv.skip(i + 1));
        let hit = match &worktrees[i].branch {
            Some(b) => str_eq(b.as_str(), needle.as_str()),
            None => false,
        };
        if hit && !worktrees[i].is_bare {
            return Some(owned(worktrees[i].path.as_str()));
        }
        i = i + 1;
    }
    None
}

/// Law: the worktree found for `branch` is the first non-bare worktree
/// whose branch is exactly `refs/heads/<branch>` (not one whose branch
/// merely starts with it), and none is found when no non-bare worktree is
/// on that branch.
pub proof fn law_found_worktree_is_on_branch(wts: Seq<WorktreeView>, branch: Seq<char>)
    ensures
        match find_worktree_spec(wts, branch) {
            Some(p) => exists|i: int|
                0 <= i < wts.len() && wts[i].path == p && !wts[i].is_bare && #[trigger] wts[i].branch
                    == Some("refs/heads/"@ + branch) && forall|j: int|
                    0 <= j < i ==> !(wts[j].branch == Some("refs/heads/"@ + branch)
                        && !wts[j].is_bare),
            None => forall|i: int|
                0 <= i < wts.len() ==> !(#[trigger] wts[i].branch == Some("refs/heads/"@ + branch)
                    && !wts[i].is_bare),
        },
    decreases wts.len(),
{
    if wts.len() > 0 {
        let rest = wts.drop_first();
        law_found_worktree_is_on_branch(rest, branch);
        if !(wts[0].branch == Some("refs/heads/"@ + branch) && !wts[0].is_bare) {
            match find_worktree_spec(rest, branch) {
                Some(p) => {
                    let i = choose|i: int|
                        0 <= i < rest.len() && rest[i].path == p && !rest[i].is_bare
                            && #[trigger] rest[i].branch == Some("refs/heads/"@ + branch)
                            && forall|j: int|
                            0 <= j < i ==> !(rest[j].branch == Some("refs/heads/"@ + branch)
                                && !rest[j].is_bare);
                    assert(wts[i + 1] == rest[i]);
                    assert forall|j: int| 0 <= j < i + 1 implies !(wts[j].branch == Some(
                        "refs/heads/"@ + branch,
                    ) && !wts[j].is_bare) by {
                        if j > 0 {
                            assert(wts[j] == rest[j - 1]);
                        }
                    }
                },
                None => {
                    assert forall|i: int| 0 <= i < wts.len() implies !(#[trigger] wts[i].branch
                        == Some("refs/heads/"@ + branch) && !wts[i].is_bare) by {
                        if i > 0 {
                            assert(wts[i] == rest[i - 1]);
                        }
                    }
                },
            }
        }
    }
}

/// How a reused worktree came to be reused.
#[derive(Debug, Clone, Copy, PartialEq, Eq, Structural)]
pub enum ReuseNote {
    /// git tracks a worktree on the branch.
    OnBranch,
    /// git tracks a worktree at the target path.
    Registered,
    /// `git worktree repair` re-linked the directory at the target.
    Repaired,
    /// The directory is a worktree of this repository whose records are gone.
    Orphaned,
}

/// What was found out in resolving the worktree to open, each in answer to
/// the step before it.
#[derive(Debug)]
pub enum ResolveEvent {
    /// The worktree already on the branch, if any.
    BranchWorktree(Option<String>),
    /// Whether anything exists at the target path.
    TargetExists(bool),
    /// Whether git has a worktree registered at the target path.
    Registered(bool),
    /// Whether, after `git worktree repair`, the target path is registered.
    RegisteredAfterRepair(bool),
    /// Whether the target is a linked worktree directory of this repository.
    LinkedDir(bool),
}

/// What to do next in resolving the worktree to open.
#[derive(Debug)]
pub enum ResolveAction {
    /// Find out whether anything exists at the target path.
    CheckTargetExists,
    /// Find out whether git has a worktree registered at the target.
    CheckRegistered,
    /// Run `git worktree repair` on the target (ignoring failure), then find
    /// out whether it is registered.
    RepairThenCheckRegistered,
    /// Find out whether the target is a linked worktree of this repository.
    CheckLinkedDir,
    /// Create the worktree at the target with `git worktree add`.
    Add,
    /// Open the existing checkout at `path`.
    Reuse { path: String, note: ReuseNote },
    /// Stop with an error.
    Refuse(OpenError),
}

/// A `ResolveEvent` as plain values.
pub enum ResolveEventView {
    BranchWorktree(Option<Seq<char>>),
    TargetExists(bool),
    Registered(bool),
    RegisteredAfterRepair(bool),
    LinkedDir(bool),
}

/// A `ResolveAction` as plain values.
pub enum ResolveActionView {
    CheckTargetExists,
    CheckRegistered,
    RepairThenCheckRegistered,
    CheckLinkedDir,
    Add,
    Reuse { path: Seq<char>, note: ReuseNote },
    Refuse(OpenErrorView),
}

impl View for ResolveEvent {
    type V = ResolveEventView;

    open spec fn view(&self) -> ResolveEventView {
        match self {
            ResolveEvent::BranchWorktree(p) => ResolveEventView::BranchWorktree(
                match p {
                    Some(s) => Some(s@),
                    None => None,
                },
            ),
            ResolveEvent::TargetExists(b) => ResolveEventView::TargetExists(*b),
            ResolveEvent::Registered(b) => ResolveEventView::Registered(*b),
            ResolveEvent::RegisteredAfterRepair(b) => ResolveEventView::RegisteredAfterRepair(*b),
            ResolveEvent::LinkedDir(b) => ResolveEventView::LinkedDir(*b),
        }
    }
}

impl View for ResolveAction {
    type V = ResolveActionView;

    open spec fn view(&self) -> ResolveActionView {
        match self {
            ResolveAction::CheckTargetExists => ResolveActionView::CheckTargetExists,
            ResolveAction::CheckRegistered => ResolveActionView::CheckRegistered,
            ResolveAction::RepairThenCheckRegistered => ResolveActionView::RepairThenCheckRegistered,
            ResolveAction::CheckLinkedDir => ResolveActionView::CheckLinkedDir,
            ResolveAction::Add => ResolveActionView::Add,
            ResolveAction::Reuse { path, note } => ResolveActionView::Reuse {
                path: path@,
                note: *note,
            },
            ResolveAction::Refuse(e) => ResolveActionView::Refuse(e@),
        }
    }
}

/// The next step after `event`, where `target` is the branch's worktree
/// path: reuse a tracked worktree; create one when nothing is at the
/// target; else reuse a registered worktree, one that repair re-links, or an
/// orphaned worktree of this repository, in that order; refuse a foreign
/// directory.
pub open spec fn resolve_step_spec(event: ResolveEventView, target: Seq<char>) -> ResolveActionView {
    match event {
        ResolveEventView::BranchWorktree(Some(p)) => ResolveActionView::Reuse {
            path: p,
            note: ReuseNote::OnBranch,
        },
        ResolveEventView::BranchWorktree(None) => ResolveActionView::CheckTargetExists,
        ResolveEventView::TargetExists(false) => ResolveActionView::Add,
        ResolveEventView::TargetExists(true) => ResolveActionView::CheckRegistered,
        ResolveEventView::Registered(true) => ResolveActionView::Reuse {
            path: target,
            note: ReuseNote::Registered,
        },
        ResolveEventView::Registered(false) => ResolveActionView::RepairThenCheckRegistered,
        ResolveEventView::RegisteredAfterRepair(true) => ResolveActionView::Reuse {
            path: target,
            note: ReuseNote::Repaired,
        },
        ResolveEventView::RegisteredAfterRepair(false) => ResolveActionView::CheckLinkedDir,
        ResolveEventView::LinkedDir(true) => ResolveActionView::Reuse {
            path: target,
            note: ReuseNote::Orphaned,
        },
        ResolveEventView::LinkedDir(false) => ResolveActionView::Refuse(
            OpenErrorView::ForeignDirectory { path: target },
        ),
    }
}

/// The next step in resolving the worktree to open; see `resolve_step_spec`.
pub fn resolve_step(event: &ResolveEvent, target: &str) -> (r: ResolveAction)
    ensures
        r@ == resolve_step_spec(event@, target@),
{
    match event {
        ResolveEvent::BranchWorktree(Some(p)) => ResolveAction::Reuse {
            path: owned(p.as_str()),
            note: ReuseNote::OnBranch,
        },
        ResolveEvent::BranchWorktree(None) => ResolveAction::CheckTargetExists,
        ResolveEvent::TargetExists(exists) => if *exists {
            ResolveAction::CheckRegistered
        } else {
            ResolveAction::Add
        },
        ResolveEvent::Registered(registered) => if *registered {
            ResolveAction::Reuse { path: owned(target), note: ReuseNote::Registered }
        } else {
            ResolveAction::RepairThenCheckRegistered
        },
        ResolveEvent::RegisteredAfterRepair(registered) => if *registered {
            ResolveAction::Reuse { path: owned(target), note: ReuseNote::Repaired }
        } else {
            ResolveAction::CheckLinkedDir
        },
        ResolveEvent::LinkedDir(linked) => if *linked {
            ResolveAction::Reuse { path: owned(target), note: ReuseNote::Orphaned }
        } else {
            ResolveAction::Refuse(OpenError::ForeignDirectory { path: owned(target) })
        },
    }
}

/// Law: a worktree is only ever created where nothing exists, and a
/// directory that is not a worktree of the repository is never reused or
/// written to but refused.
pub proof fn law_resolve_never_clobbers(event: ResolveEventView, target: Seq<char>)
    ensures
        resolve_step_spec(event, target) is Add ==> event == ResolveEventView::TargetExists(false),
        resolve_step_spec(event, target) is Refuse ==> event == ResolveEventView::LinkedDir(false),
        event == ResolveEventView::LinkedDir(false) ==> !(resolve_step_spec(event, target) is Reuse)
            && !(resolve_step_spec(event, target) is Add),
{
}

// ---------------------------------------------------------------------------
// Sessions

/// The name of the running session for `repo`/`branch`, if any: the zellij
/// form (fitted to `max_bytes`) when a session has it, else the tmux form.
pub open spec fn existing_session_spec(
    names: Seq<Seq<char>>,
    repo: Seq<char>,
    branch: Seq<char>,
    max_bytes: int,
) -> Option<Seq<char>> {
    let z = shorten_spec(zellij_full_name(repo, branch), max_bytes);
    let t = tmux_name_spec(repo, branch);
    if names.contains(z) {
        Some(z)
    } else if names.contains(t) {
        Some(t)
    } else {
        None
    }
}

/// Whether some session is called `name`.
fn has_session(sessions: &Vec<Session>, name: &str) -> (r: bool)
    ensures
        r == session_names(sessions@).contains(name@),
{
    let ghost ns = session_names(sessions@);
    let mut i: usize = 0;
    while i < sessions.len()
        invariant
            i <= sessions.len(),
            ns == session_names(sessions@),
            forall|k: int| 0 <= k < i ==> ns[k] != name@,
        decreases sessions.len() - i,
    {
        if str_eq(sessions[i].name.as_str(), name) {
            assert(ns[i as int] == name@);
            return true;
        }
        i = i + 1;
    }
    false
}

/// The session to attach to instead of creating one, if it already runs.
pub fn existing_session_name(sessions: &Vec<Session>, name: &SessionName, max_bytes: usize) -> (r:
    Option<String>)
    ensures
        match r {
            Some(s) => existing_session_spec(
                session_names(sessions@),
                name.repo@,
                name.branch@,
                max_bytes as int,
            ) == Some(s@),
            None => existing_session_spec(
                session_names(sessions@),
                name.repo@,
                name.branch@,
                max_bytes as int,
            ) is None,
        },
{
    let z = name.as_zellij_name_with_max_bytes(max_bytes);
    if has_session(sessions, z.as_str()) {
        return Some(z);
    }
    let t = name.as_tmux_name();
    if has_session(sessions, t.as_str()) {
        return Some(t);
    }
    None
}

} // verus!
