//! Worktree maintenance: which worktrees are stale, which sessions are
//! orphaned, which branches are done, and what a prune reports.
use vstd::prelude::*;
use crate::git::{Worktree, WorktreeView, worktree_views};
use crate::multiplexer::{
    Session, SessionName, byte_len, char_width, fit_chars, fit_prefix, lemma_byte_len_ascii,
    lemma_byte_len_push, lemma_fit_chars, lemma_fit_chars_covers, shorten_spec, tmux_name_spec,
    zellij_full_name,
};
use vstd::utf8::encode_utf8;
use crate::text::{
    chars_of, concat2, concat3, decimal, decimal_string, has_char, has_prefix, owned,
    replace_char_spec, starts_with,
    str_eq, string_from_range, strip_prefix, strip_prefix_spec,
};

verus! {

broadcast use vstd::string::group_string_axioms;

/// The view of an optional string slice.
pub open spec fn opt_str(o: Option<&str>) -> Option<Seq<char>> {
    match o {
        Some(s) => Some(s@),
        None => None,
    }
}

// ---------------------------------------------------------------------------
// Branch names and session ownership

/// `refs/heads/`, the prefix of a local branch ref.
pub open spec fn heads_prefix() -> Seq<char> {
    "refs/heads/"@
}

/// The short branch name of a ref (`refs/heads/` removed when present), or
/// `(detached)` when there is no branch.
pub open spec fn extract_branch_spec(b: Option<Seq<char>>) -> Seq<char> {
    match b {
        Some(r) => match strip_prefix_spec(r, heads_prefix()) {
            Some(x) => x,
            None => r,
        },
        None => "(detached)"@,
    }
}

/// The short branch name of a ref, or `(detached)`.
pub fn extract_branch_name(branch_ref: Option<&str>) -> (r: String)
    ensures
        r@ == extract_branch_spec(opt_str(branch_ref)),
{
    match branch_ref {
        Some(r) => match strip_prefix(r, "refs/heads/") {
            Some(x) => x,
            None => owned(r),
        },
        None => owned("(detached)"),
    }
}

/// Whether a session name belongs to `repo`: it starts with `repo:` (the
/// zellij form), `repo-` (the tmux form) or `repo/` (the display form).
pub open spec fn is_repo_session_spec(repo: Seq<char>, name: Seq<char>) -> bool {
    has_prefix(name, repo.push(':')) || has_prefix(name, repo.push('-')) || has_prefix(
        name,
        repo.push('/'),
    )
}

/// Whether `session_name` belongs to `repo`, in the `repo:…`, `repo-…` or
/// `repo/…` naming.
pub fn is_repo_session(repo: &str, session_name: &str) -> (r: bool)
    ensures
        r == is_repo_session_spec(repo@, session_name@),
{
    let zellij_prefix = concat2(repo, ":");
    let tmux_prefix = concat2(repo, "-");
    let display_prefix = concat2(repo, "/");
    proof {
        reveal_strlit(":");
        reveal_strlit("/");
        reveal_strlit("-");
        assert(zellij_prefix@ =~= repo@.push(':'));
        assert(display_prefix@ =~= repo@.push('/'));
        assert(tmux_prefix@ =~= repo@.push('-'));
    }
    starts_with(session_name, zellij_prefix.as_str()) || starts_with(
        session_name,
        tmux_prefix.as_str(),
    ) || starts_with(session_name, display_prefix.as_str())
}

/// Replacing a character a sequence does not hold changes nothing.
proof fn lemma_replace_absent(s: Seq<char>, from: char, to: char)
    requires
        !has_char(s, from),
    ensures
        replace_char_spec(s, from, to) == s,
{
    assert(replace_char_spec(s, from, to) =~= s);
}

/// Law: every session name grove gives a worktree of `repo` (a repository
/// name, so without `/`) is recognised as `repo`'s: the tmux name always,
/// and the zellij name whenever it fits its byte budget unshortened or the
/// budget leaves room for `repo:` beside the hash suffix.
pub proof fn law_own_sessions_are_recognised(repo: Seq<char>, branch: Seq<char>, max_bytes: int)
    requires
        !has_char(repo, '/'),
    ensures
        is_repo_session_spec(repo, tmux_name_spec(repo, branch)),
        byte_len(zellij_full_name(repo, branch)) <= max_bytes ==> is_repo_session_spec(
            repo,
            shorten_spec(zellij_full_name(repo, branch), max_bytes),
        ),
        byte_len(repo) + 1 + 9 <= max_bytes ==> is_repo_session_spec(
            repo,
            shorten_spec(zellij_full_name(repo, branch), max_bytes),
        ),
{
    lemma_replace_absent(repo, '/', '-');
    lemma_replace_absent(repo, '/', ':');
    let t = tmux_name_spec(repo, branch);
    assert(t.take(repo.len() + 1 as int) =~= repo.push('-'));
    let z = zellij_full_name(repo, branch);
    assert(z.take(repo.len() + 1 as int) =~= repo.push(':'));
    if byte_len(repo) + 1 + 9 <= max_bytes && byte_len(z) > max_bytes {
        lemma_byte_len_push(repo, ':');
        assert(char_width(':') == 1) by {
            lemma_byte_len_ascii(seq![':']);
            lemma_byte_len_push(Seq::<char>::empty(), ':');
            assert(Seq::<char>::empty().push(':') =~= seq![':']);
            assert(encode_utf8(Seq::<char>::empty()) =~= Seq::<u8>::empty());
        }
        lemma_fit_chars_covers(z, max_bytes - 9, repo.len() + 1 as int);
        lemma_fit_chars(z, max_bytes - 9);
        let sh = shorten_spec(z, max_bytes);
        assert(sh.take(repo.len() + 1 as int) =~= z.take(repo.len() + 1 as int));
    }
}

// ---------------------------------------------------------------------------
// Stale worktrees

/// A worktree is stale when its directory is gone; a bare entry never is.
pub fn is_stale(wt: &Worktree, path_exists: bool) -> (r: bool)
    ensures
        r == (!wt.is_bare && !path_exists),
{
    !wt.is_bare && !path_exists
}

/// The branch names (as `extract_branch_name` gives them) of the stale
/// worktrees, in order, given whether each worktree's path exists.
pub open spec fn stale_branches_spec(wts: Seq<WorktreeView>, exists: Seq<bool>) -> Seq<Seq<char>>
    decreases wts.len(),
{
    if wts.len() == 0 || exists.len() == 0 {
        seq![]
    } else {
        let rest = stale_branches_spec(wts.drop_last(), exists.drop_last());
        if !wts.last().is_bare && !exists.last() {
            rest.push(extract_branch_spec(wts.last().branch))
        } else {
            rest
        }
    }
}

/// The branches of the stale worktrees, whose sessions a prune kills.
pub fn stale_branches(worktrees: &Vec<Worktree>, exists: &Vec<bool>) -> (r: Vec<String>)
    requires
        exists.len() == worktrees.len(),
    ensures
        r@.map_values(|s: String| s@) == stale_branches_spec(worktree_views(worktrees@), exists@),
{
    let mut r: Vec<String> = Vec::new();
    let mut i: usize = 0;
    while i < worktrees.len()
        invariant
            exists.len() == worktrees.len(),
            i <= worktrees.len(),
            r@.map_values(|s: String| s@) == stale_branches_spec(
                worktree_views(worktrees@).take(i as int),
                exists@.take(i as int),
            ),
        decreases worktrees.len() - i,
    {
        let ghost before = r@.map_values(|s: String| s@);
        let ghost wv = worktree_views(worktrees@);
        assert(wv.take(i + 1).drop_last() =~= wv.take(i as int));
        assert(exists@.take(i + 1).drop_last() =~= exists@.take(i as int));
        if is_stale(&worktrees[i], exists[i]) {
            let b = match &worktrees[i].branch {
                Some(s) => extract_branch_name(Some(s.as_str())),
                None => extract_branch_name(None),
            };
            r.push(b);
            assert(r@.map_values(|s: String| s@) =~= before.push(
                extract_branch_spec(wv[i as int].branch),
            ));
        }
        i = i + 1;
    }
    assert(worktree_views(worktrees@).take(i as int) =~= worktree_views(worktrees@));
    assert(exists@.take(i as int) =~= exists@);
    r
}

/// The first eight bytes of a commit id, or the whole id when it is shorter
/// or byte eight falls inside a character (`str::get(..8)`).
pub open spec fn short_head_spec(h: Seq<char>) -> Seq<char> {
    let k = fit_chars(h, 8);
    if byte_len(h.take(k as int)) == 8 {
        h.take(k as int)
    } else {
        h
    }
}

/// The line `tree list` prints for a worktree: two spaces, the branch ref
/// (or `(detached)`), ` [bare]` and ` [stale]` markers, the short commit id
/// and the path.
pub open spec fn list_line_spec(wt: WorktreeView, stale: bool) -> Seq<char> {
    let label = match wt.branch {
        Some(b) => b,
        None => "(detached)"@,
    };
    "  "@ + label + (if wt.is_bare {
        " [bare]"@
    } else {
        Seq::empty()
    }) + (if stale {
        " [stale]"@
    } else {
        Seq::empty()
    }) + "  "@ + short_head_spec(wt.head) + "  "@ + wt.path
}

/// The line `tree list` prints for `wt`.
pub fn worktree_list_line(wt: &Worktree, stale: bool) -> (r: String)
    ensures
        r@ == list_line_spec(wt@, stale),
{
    let hv = chars_of(wt.head.as_str());
    let (k, used) = fit_prefix(&hv, 8);
    let head = if used == 8 {
        string_from_range(&hv, 0, k)
    } else {
        owned(wt.head.as_str())
    };
    assert(hv@.subrange(0, k as int) =~= hv@.take(k as int));
    let label = match &wt.branch {
        Some(b) => owned(b.as_str()),
        None => owned("(detached)"),
    };
    let mut r = concat2("  ", label.as_str());
    if wt.is_bare {
        r = concat2(r.as_str(), " [bare]");
    }
    if stale {
        r = concat2(r.as_str(), " [stale]");
    }
    let r2 = concat3(r.as_str(), "  ", head.as_str());
    let r3 = concat3(r2.as_str(), "  ", wt.path.as_str());
    proof {
        let bare_part: Seq<char> = if wt.is_bare {
            " [bare]"@
        } else {
            Seq::empty()
        };
        let stale_part: Seq<char> = if stale {
            " [stale]"@
        } else {
            Seq::empty()
        };
        assert(r@ =~= "  "@ + label@ + bare_part + stale_part);
        assert(r3@ =~= list_line_spec(wt@, stale));
    }
    r3
}

// ---------------------------------------------------------------------------
// Closing a worktree

/// Whether session `name` is the session of worktree `wt` of `repo`, under
/// either multiplexer's naming.
pub open spec fn session_of_worktree(
    repo: Seq<char>,
    name: Seq<char>,
    wt: WorktreeView,
    max_bytes: int,
) -> bool {
    let b = extract_branch_spec(wt.branch);
    name == shorten_spec(zellij_full_name(repo, b), max_bytes) || name == tmux_name_spec(repo, b)
}

/// A session is orphaned when it belongs to `repo` but is the session of
/// none of its non-bare worktrees.
pub open spec fn is_orphaned_spec(
    repo: Seq<char>,
    name: Seq<char>,
    wts: Seq<WorktreeView>,
    max_bytes: int,
) -> bool {
    is_repo_session_spec(repo, name) && !exists|i: int|
        0 <= i < wts.len() && !wts[i].is_bare && #[trigger] session_of_worktree(
            repo,
            name,
            wts[i],
            max_bytes,
        )
}

/// The names of the orphaned sessions among `names`, in order.
pub open spec fn orphans_spec(
    repo: Seq<char>,
    names: Seq<Seq<char>>,
    wts: Seq<WorktreeView>,
    max_bytes: int,
) -> Seq<Seq<char>>
    decreases names.len(),
{
    if names.len() == 0 {
        seq![]
    } else {
        let rest = orphans_spec(repo, names.drop_last(), wts, max_bytes);
        if is_orphaned_spec(repo, names.last(), wts, max_bytes) {
            rest.push(names.last())
        } else {
            rest
        }
    }
}

/// The names of a sequence of sessions.
pub open spec fn session_names(v: Seq<Session>) -> Seq<Seq<char>> {
    v.map_values(|s: Session| s.name@)
}

/// Whether session `name` is the session of some non-bare worktree.
fn has_worktree(repo: &str, name: &str, worktrees: &Vec<Worktree>, max_bytes: usize) -> (r: bool)
    ensures
        r == exists|i: int|
            0 <= i < worktrees@.len() && !worktree_views(worktrees@)[i].is_bare
                && #[trigger] session_of_worktree(
                repo@,
                name@,
                worktree_views(worktrees@)[i],
                max_bytes as int,
            ),
{
    let ghost wv = worktree_views(worktrees@);
    let mut i: usize = 0;
    while i < worktrees.len()
        invariant
            i <= worktrees.len(),
            wv == worktree_views(worktrees@),
            forall|k: int|
                0 <= k < i ==> !(!wv[k].is_bare && #[trigger] session_of_worktree(
                    repo@,
                    name@,
                    wv[k],
                    max_bytes as int,
                )),
        decreases worktrees.len() - i,
    {
        if !worktrees[i].is_bare {
            let branch = match &worktrees[i].branch {
                Some(s) => extract_branch_name(Some(s.as_str())),
                None => extract_branch_name(None),
            };
            let sn = SessionName::new(repo, branch.as_str());
            let z = sn.as_zellij_name_with_max_bytes(max_bytes);
            let t = sn.as_tmux_name();
            if str_eq(name, z.as_str()) || str_eq(name, t.as_str()) {
                assert(session_of_worktree(repo@, name@, wv[i as int], max_bytes as int));
                return true;
            }
        }
        i = i + 1;
    }
    false
}

/// The sessions of `repo` whose worktree is gone, in the order listed. A
/// session's worktree is matched under both naming forms, the zellij one
/// fitted to `max_bytes`.
pub fn orphaned_sessions(
    repo_name: &str,
    worktrees: &Vec<Worktree>,
    sessions: &Vec<Session>,
    max_bytes: usize,
) -> (r: Vec<Session>)
    ensures
        session_names(r@) == orphans_spec(
            repo_name@,
            session_names(sessions@),
            worktree_views(worktrees@),
            max_bytes as int,
        ),
{
    let ghost wv = worktree_views(worktrees@);
    let ghost names = session_names(sessions@);
    let mut r: Vec<Session> = Vec::new();
    let mut i: usize = 0;
    while i < sessions.len()
        invariant
            i <= sessions.len(),
            wv == worktree_views(worktrees@),
            names == session_names(sessions@),
            session_names(r@) == orphans_spec(
                repo_name@,
                names.take(i as int),
                wv,
                max_bytes as int,
            ),
        decreases sessions.len() - i,
    {
        let ghost before = session_names(r@);
        assert(names.take(i + 1).drop_last() =~= names.take(i as int));
        let name = sessions[i].name.as_str();
        if is_repo_session(repo_name, name) && !has_worktree(repo_name, name, worktrees, max_bytes) {
            r.push(Session { name: owned(name) });
            assert(session_names(r@) =~= before.push(names[i as int]));
        }
        i = i + 1;
    }
    assert(names.take(i as int) =~= names);
    r
}

/// What `tree close` can do with the chosen entry.
#[derive(Debug)]
pub enum CloseAction {
    /// Kill the worktree's session (if any) and remove the worktree.
    WorktreeAndSession { branch: String, worktree_path: String },
    /// Kill a session whose worktree is gone.
    OrphanedSession { session_name: String },
}

/// A `CloseAction` as plain values.
pub enum CloseActionView {
    WorktreeAndSession { branch: Seq<char>, worktree_path: Seq<char> },
    OrphanedSession { session_name: Seq<char> },
}

impl View for CloseAction {
    type V = CloseActionView;

    open spec fn view(&self) -> CloseActionView {
        match self {
            CloseAction::WorktreeAndSession { branch, worktree_path } => {
                CloseActionView::WorktreeAndSession { branch: branch@, worktree_path: worktree_path@ }
            },
            CloseAction::OrphanedSession { session_name } => CloseActionView::OrphanedSession {
                session_name: session_name@,
            },
        }
    }
}

/// The choices for the non-bare worktrees: the branch name as label.
pub open spec fn worktree_choices_spec(wts: Seq<WorktreeView>) -> Seq<(Seq<char>, CloseActionView)>
    decreases wts.len(),
{
    if wts.len() == 0 {
        seq![]
    } else {
        let rest = worktree_choices_spec(wts.drop_last());
        let w = wts.last();
        if w.is_bare {
            rest
        } else {
            let b = extract_branch_spec(w.branch);
            rest.push((b, CloseActionView::WorktreeAndSession { branch: b, worktree_path: w.path }))
        }
    }
}

/// The label of an orphaned session's choice.
pub open spec fn orphan_label(name: Seq<char>) -> Seq<char> {
    name + " [orphaned session]"@
}

/// The choices for the orphaned sessions.
pub open spec fn orphan_choices_spec(names: Seq<Seq<char>>) -> Seq<(Seq<char>, CloseActionView)> {
    Seq::new(
        names.len(),
        |i: int|
            (orphan_label(names[i]), CloseActionView::OrphanedSession { session_name: names[i] }),
    )
}

/// The views of the choices.
pub open spec fn choice_views(v: Seq<(String, CloseAction)>) -> Seq<(Seq<char>, CloseActionView)> {
    v.map_values(|c: (String, CloseAction)| (c.0@, c.1@))
}

/// The entries `tree close` offers: each non-bare worktree, then each
/// orphaned session.
pub fn close_choices(worktrees: &Vec<Worktree>, orphaned: &Vec<Session>) -> (r: Vec<
    (String, CloseAction),
>)
    ensures
        choice_views(r@) == worktree_choices_spec(worktree_views(worktrees@)) + orphan_choices_spec(
            session_names(orphaned@),
        ),
{
    let ghost wv = worktree_views(worktrees@);
    let mut r: Vec<(String, CloseAction)> = Vec::new();
    let mut i: usize = 0;
    while i < worktrees.len()
        invariant
            i <= worktrees.len(),
            wv == worktree_views(worktrees@),
            choice_views(r@) == worktree_choices_spec(wv.take(i as int)),
        decreases worktrees.len() - i,
    {
        let ghost before = choice_views(r@);
        assert(wv.take(i + 1).drop_last() =~= wv.take(i as int));
        if !worktrees[i].is_bare {
            let branch = match &worktrees[i].branch {
                Some(s) => extract_branch_name(Some(s.as_str())),
                None => extract_branch_name(None),
            };
            let label = owned(branch.as_str());
            let path = owned(worktrees[i].path.as_str());
            r.push((label, CloseAction::WorktreeAndSession { branch, worktree_path: path }));
            assert(choice_views(r@) =~= before.push(
                (
                    extract_branch_spec(wv[i as int].branch),
                    CloseActionView::WorktreeAndSession {
                        branch: extract_branch_spec(wv[i as int].branch),
                        worktree_path: wv[i as int].path,
                    },
                ),
            ));
        }
        i = i + 1;
    }
    assert(wv.take(i as int) =~= wv);
    let ghost head = choice_views(r@);
    let ghost names = session_names(orphaned@);
    let mut j: usize = 0;
    while j < orphaned.len()
        invariant
            j <= orphaned.len(),
            names == session_names(orphaned@),
            choice_views(r@) == head + orphan_choices_spec(names.take(j as int)),
        decreases orphaned.len() - j,
    {
        let ghost before = choice_views(r@);
        let name = orphaned[j].name.as_str();
        let label = concat2(name, " [orphaned session]");
        r.push((label, CloseAction::OrphanedSession { session_name: owned(name) }));
        assert(orphan_choices_spec(names.take(j + 1)) =~= orphan_choices_spec(
            names.take(j as int),
        ).push((orphan_label(names[j as int]), CloseActionView::OrphanedSession { session_name: names[j as int] })));
        assert(choice_views(r@) =~= before.push(
            (orphan_label(names[j as int]), CloseActionView::OrphanedSession { session_name: names[j as int] }),
        ));
        j = j + 1;
    }
    assert(names.take(j as int) =~= names);
    r
}

/// One step of carrying out a `CloseAction`.
#[derive(Debug)]
pub enum CloseStep {
    /// Kill a session, ignoring failure (it may not exist).
    KillSessionQuietly { name: String },
    /// Kill a session; failure is an error.
    KillSession { name: String },
    /// Remove a worktree; when that fails (its directory is missing),
    /// prune the stale records instead.
    RemoveWorktreeOrPrune { path: String },
}

/// A `CloseStep` as plain values.
pub enum CloseStepView {
    KillSessionQuietly { name: Seq<char> },
    KillSession { name: Seq<char> },
    RemoveWorktreeOrPrune { path: Seq<char> },
}

impl View for CloseStep {
    type V = CloseStepView;

    open spec fn view(&self) -> CloseStepView {
        match self {
            CloseStep::KillSessionQuietly { name } => CloseStepView::KillSessionQuietly {
                name: name@,
            },
            CloseStep::KillSession { name } => CloseStepView::KillSession { name: name@ },
            CloseStep::RemoveWorktreeOrPrune { path } => CloseStepView::RemoveWorktreeOrPrune {
                path: path@,
            },
        }
    }
}

/// The steps of a close action in `repo`: for a worktree, kill its session
/// under both names (quietly) and then remove it; for an orphaned session,
/// kill it.
pub open spec fn close_steps_spec(action: CloseActionView, repo: Seq<char>, max_bytes: int) -> Seq<
    CloseStepView,
> {
    match action {
        CloseActionView::WorktreeAndSession { branch, worktree_path } => seq![
            CloseStepView::KillSessionQuietly {
                name: shorten_spec(zellij_full_name(repo, branch), max_bytes),
            },
            CloseStepView::KillSessionQuietly { name: tmux_name_spec(repo, branch) },
            CloseStepView::RemoveWorktreeOrPrune { path: worktree_path },
        ],
        CloseActionView::OrphanedSession { session_name } => seq![
            CloseStepView::KillSession { name: session_name },
        ],
    }
}

impl CloseAction {
    /// The steps that carry out this action for `repo_name`.
    pub fn steps(&self, repo_name: &str, max_bytes: usize) -> (r: Vec<CloseStep>)
        ensures
            r@.map_values(|s: CloseStep| s@) == close_steps_spec(
                self@,
                repo_name@,
                max_bytes as int,
            ),
    {
        match self {
            CloseAction::WorktreeAndSession { branch, worktree_path } => {
                let sn = SessionName::new(repo_name, branch.as_str());
                let z = sn.as_zellij_name_with_max_bytes(max_bytes);
                let t = sn.as_tmux_name();
                let mut r: Vec<CloseStep> = Vec::new();
                r.push(CloseStep::KillSessionQuietly { name: z });
                r.push(CloseStep::KillSessionQuietly { name: t });
                r.push(CloseStep::RemoveWorktreeOrPrune { path: owned(worktree_path.as_str()) });
                assert(r@.map_values(|s: CloseStep| s@) =~= close_steps_spec(
                    self@,
                    repo_name@,
                    max_bytes as int,
                ));
                r
            },
            CloseAction::OrphanedSession { session_name } => {
                let mut r: Vec<CloseStep> = Vec::new();
                r.push(CloseStep::KillSession { name: owned(session_name.as_str()) });
                assert(r@.map_values(|s: CloseStep| s@) =~= close_steps_spec(
                    self@,
                    repo_name@,
                    max_bytes as int,
                ));
                r
            },
        }
    }
}

/// Law: `tree close` never offers to kill a live worktree's session as
/// orphaned, and every orphaned session it offers belongs to the repo.
pub proof fn law_orphans_are_repo_sessions_without_worktree(
    repo: Seq<char>,
    names: Seq<Seq<char>>,
    wts: Seq<WorktreeView>,
    max_bytes: int,
    k: int,
)
    requires
        0 <= k < orphans_spec(repo, names, wts, max_bytes).len(),
    ensures
        is_repo_session_spec(repo, orphans_spec(repo, names, wts, max_bytes)[k]),
        forall|i: int|
            0 <= i < wts.len() && !wts[i].is_bare ==> !session_of_worktree(
                repo,
                orphans_spec(repo, names, wts, max_bytes)[k],
                wts[i],
                max_bytes,
            ),
    decreases names.len(),
{
    if names.len() > 0 {
        let rest = orphans_spec(repo, names.drop_last(), wts, max_bytes);
        if k < rest.len() {
            law_orphans_are_repo_sessions_without_worktree(
                repo,
                names.drop_last(),
                wts,
                max_bytes,
                k,
            );
        }
    }
}


/// Law: no live session of a worktree is ever offered as orphaned. For
/// every non-bare worktree of the repository, on branch `b` (its ref with
/// `refs/heads/` removed), neither its zellij name (`<repo>:<b>`, fitted
/// to `max_bytes`) nor its tmux name is in the orphaned list; every name in
/// the list is a session of the repository taken from `names`; and every
/// session of the repository matching no worktree under either name is in
/// the list.
pub proof fn law_live_sessions_are_not_orphaned(
    repo: Seq<char>,
    names: Seq<Seq<char>>,
    wts: Seq<WorktreeView>,
    max_bytes: int,
)
    ensures
        forall|k: int, i: int|
            0 <= k < orphans_spec(repo, names, wts, max_bytes).len() && 0 <= i < wts.len()
                && !wts[i].is_bare ==> {
                &&& #[trigger] orphans_spec(repo, names, wts, max_bytes)[k] != shorten_spec(
                    zellij_full_name(repo, extract_branch_spec(#[trigger] wts[i].branch)),
                    max_bytes,
                )
                &&& orphans_spec(repo, names, wts, max_bytes)[k] != tmux_name_spec(
                    repo,
                    extract_branch_spec(wts[i].branch),
                )
            },
        forall|k: int|
            0 <= k < orphans_spec(repo, names, wts, max_bytes).len() ==> is_repo_session_spec(
                repo,
                #[trigger] orphans_spec(repo, names, wts, max_bytes)[k],
            ) && names.contains(orphans_spec(repo, names, wts, max_bytes)[k]),
        forall|j: int|
            0 <= j < names.len() && is_repo_session_spec(repo, #[trigger] names[j]) && (forall|
                i: int,
            |
                0 <= i < wts.len() && !wts[i].is_bare ==> names[j] != shorten_spec(
                    zellij_full_name(repo, extract_branch_spec(#[trigger] wts[i].branch)),
                    max_bytes,
                ) && names[j] != tmux_name_spec(repo, extract_branch_spec(wts[i].branch)))
                ==> orphans_spec(repo, names, wts, max_bytes).contains(names[j]),
    decreases names.len(),
{
    let res = orphans_spec(repo, names, wts, max_bytes);
    assert forall|k: int, i: int|
        0 <= k < res.len() && 0 <= i < wts.len() && !wts[i].is_bare implies {
        &&& #[trigger] res[k] != shorten_spec(
            zellij_full_name(repo, extract_branch_spec(#[trigger] wts[i].branch)),
            max_bytes,
        )
        &&& res[k] != tmux_name_spec(repo, extract_branch_spec(wts[i].branch))
    } by {
        law_orphans_are_repo_sessions_without_worktree(repo, names, wts, max_bytes, k);
        assert(!session_of_worktree(repo, res[k], wts[i], max_bytes));
    }
    if names.len() > 0 {
        let short = names.drop_last();
        let rest = orphans_spec(repo, short, wts, max_bytes);
        law_live_sessions_are_not_orphaned(repo, short, wts, max_bytes);
        assert forall|k: int| 0 <= k < res.len() implies is_repo_session_spec(
            repo,
            #[trigger] res[k],
        ) && names.contains(res[k]) by {
            law_orphans_are_repo_sessions_without_worktree(repo, names, wts, max_bytes, k);
            if k < rest.len() {
                assert(res[k] == rest[k]);
                assert(rest[k] == rest[k]);
                assert(short.contains(rest[k]));
                let x = choose|x: int| 0 <= x < short.len() && short[x] == rest[k];
                assert(names[x] == short[x]);
            } else {
                assert(res[k] == names.last());
                assert(names[names.len() - 1] == names.last());
            }
        }
        assert forall|j: int|
            0 <= j < names.len() && is_repo_session_spec(repo, #[trigger] names[j]) && (forall|
                i: int,
            |
                0 <= i < wts.len() && !wts[i].is_bare ==> names[j] != shorten_spec(
                    zellij_full_name(repo, extract_branch_spec(#[trigger] wts[i].branch)),
                    max_bytes,
                ) && names[j] != tmux_name_spec(repo, extract_branch_spec(wts[i].branch)))
            implies res.contains(names[j]) by {
            if j < names.len() - 1 {
                assert(short[j] == names[j]);
                assert(rest.contains(names[j]));
                let x = choose|x: int| 0 <= x < rest.len() && rest[x] == names[j];
                assert(res[x] == rest[x]);
            } else {
                assert(names[j] == names.last());
                assert(!exists|i: int|
                    0 <= i < wts.len() && !wts[i].is_bare && #[trigger] session_of_worktree(
                        repo,
                        names.last(),
                        wts[i],
                        max_bytes,
                    ));
                assert(res[res.len() - 1] == names[j]);
            }
        }
    }
}

/// Whether worktree `i` is stale: not bare, and its path gone.
pub open spec fn stale_at(wts: Seq<WorktreeView>, exists: Seq<bool>) -> spec_fn(int) -> bool {
    |i: int| !wts[i].is_bare && !exists[i]
}

/// The short branch name of worktree `i`.
pub open spec fn branch_at(wts: Seq<WorktreeView>) -> spec_fn(int) -> Seq<char> {
    |i: int| extract_branch_spec(wts[i].branch)
}

/// The positions `0..n`.
pub open spec fn positions(n: int) -> Seq<int> {
    Seq::new(n as nat, |i: int| i)
}

proof fn lemma_stale_prefix(wts: Seq<WorktreeView>, exists: Seq<bool>, m: int)
    requires
        exists.len() == wts.len(),
        0 <= m <= wts.len(),
    ensures
        stale_branches_spec(wts.take(m), exists.take(m)) == positions(m).filter(
            stale_at(wts, exists),
        ).map_values(branch_at(wts)),
    decreases m,
{
    reveal(Seq::filter);
    if m == 0 {
        assert(positions(0).filter(stale_at(wts, exists)) =~= Seq::<int>::empty());
    } else {
        lemma_stale_prefix(wts, exists, m - 1);
        assert(wts.take(m).drop_last() =~= wts.take(m - 1));
        assert(exists.take(m).drop_last() =~= exists.take(m - 1));
        assert(positions(m).drop_last() =~= positions(m - 1));
        assert(positions(m).last() == m - 1);
        let prev = positions(m - 1).filter(stale_at(wts, exists));
        if stale_at(wts, exists)(m - 1) {
            assert(positions(m).filter(stale_at(wts, exists)) == prev.push(m - 1));
            assert(prev.push(m - 1).map_values(branch_at(wts)) =~= prev.map_values(
                branch_at(wts),
            ).push(extract_branch_spec(wts[m - 1].branch)));
        } else {
            assert(positions(m).filter(stale_at(wts, exists)) == prev);
        }
    }
}

/// Law: the stale branches are exactly the short branch names of the
/// worktrees that are not bare and whose path is gone, every one of them,
/// in the worktrees' order; so their number is the number of stale
/// worktrees.
pub proof fn law_stale_branches_are_all_stale_worktrees(wts: Seq<WorktreeView>, exists: Seq<bool>)
    requires
        exists.len() == wts.len(),
    ensures
        stale_branches_spec(wts, exists) == positions(wts.len() as int).filter(
            stale_at(wts, exists),
        ).map_values(branch_at(wts)),
        stale_branches_spec(wts, exists).len() == positions(wts.len() as int).filter(
            stale_at(wts, exists),
        ).len(),
{
    lemma_stale_prefix(wts, exists, wts.len() as int);
    assert(wts.take(wts.len() as int) =~= wts);
    assert(exists.take(wts.len() as int) =~= exists);
}


/// Whether the session name `names[j]` is an orphan of `repo`: a session of
/// the repository that is neither the zellij name (fitted to `max_bytes`)
/// nor the tmux name of any non-bare worktree's branch.
pub open spec fn orphan_at(
    repo: Seq<char>,
    names: Seq<Seq<char>>,
    wts: Seq<WorktreeView>,
    max_bytes: int,
) -> spec_fn(int) -> bool {
    |j: int|
        is_repo_session_spec(repo, names[j]) && forall|i: int|
            0 <= i < wts.len() && !wts[i].is_bare ==> names[j] != shorten_spec(
                zellij_full_name(repo, extract_branch_spec(#[trigger] wts[i].branch)),
                max_bytes,
            ) && names[j] != tmux_name_spec(repo, extract_branch_spec(wts[i].branch))
}

/// The name at position `j`.
pub open spec fn name_at(names: Seq<Seq<char>>) -> spec_fn(int) -> Seq<char> {
    |j: int| names[j]
}

proof fn lemma_orphans_prefix(
    repo: Seq<char>,
    names: Seq<Seq<char>>,
    wts: Seq<WorktreeView>,
    max_bytes: int,
    m: int,
)
    requires
        0 <= m <= names.len(),
    ensures
        orphans_spec(repo, names.take(m), wts, max_bytes) == positions(m).filter(
            orphan_at(repo, names, wts, max_bytes),
        ).map_values(name_at(names)),
    decreases m,
{
    reveal(Seq::filter);
    let p = orphan_at(repo, names, wts, max_bytes);
    if m == 0 {
        assert(positions(0).filter(p) =~= Seq::<int>::empty());
    } else {
        lemma_orphans_prefix(repo, names, wts, max_bytes, m - 1);
        assert(names.take(m).drop_last() =~= names.take(m - 1));
        assert(names.take(m).last() == names[m - 1]);
        assert(positions(m).drop_last() =~= positions(m - 1));
        assert(positions(m).last() == m - 1);
        let prev = positions(m - 1).filter(p);
        let nm = names[m - 1];
        if exists|i: int|
            0 <= i < wts.len() && !wts[i].is_bare && #[trigger] session_of_worktree(
                repo,
                nm,
                wts[i],
                max_bytes,
            ) {
            let i = choose|i: int|
                0 <= i < wts.len() && !wts[i].is_bare && #[trigger] session_of_worktree(
                    repo,
                    nm,
                    wts[i],
                    max_bytes,
                );
            assert(!p(m - 1)) by {
                assert(wts[i].branch == wts[i].branch);
            }
        } else {
            assert forall|i: int| 0 <= i < wts.len() && !wts[i].is_bare implies nm != shorten_spec(
                zellij_full_name(repo, extract_branch_spec(#[trigger] wts[i].branch)),
                max_bytes,
            ) && nm != tmux_name_spec(repo, extract_branch_spec(wts[i].branch)) by {
                assert(!session_of_worktree(repo, nm, wts[i], max_bytes));
            }
        }
        assert(p(m - 1) == is_orphaned_spec(repo, nm, wts, max_bytes));
        if p(m - 1) {
            assert(positions(m).filter(p) == prev.push(m - 1));
            assert(prev.push(m - 1).map_values(name_at(names)) =~= prev.map_values(
                name_at(names),
            ).push(names[m - 1]));
        } else {
            assert(positions(m).filter(p) == prev);
        }
    }
}

/// Law: the orphaned sessions are exactly the sessions of the repository,
/// in the order listed, whose name is neither the zellij name (fitted to
/// `max_bytes`) nor the tmux name of any non-bare worktree's branch.
pub proof fn law_orphans_are_exactly_unmatched_sessions(
    repo: Seq<char>,
    names: Seq<Seq<char>>,
    wts: Seq<WorktreeView>,
    max_bytes: int,
)
    ensures
        orphans_spec(repo, names, wts, max_bytes) == positions(names.len() as int).filter(
            orphan_at(repo, names, wts, max_bytes),
        ).map_values(name_at(names)),
{
    lemma_orphans_prefix(repo, names, wts, max_bytes, names.len() as int);
    assert(names.take(names.len() as int) =~= names);
}


// ---------------------------------------------------------------------------
// Pruning worktrees whose branch is done

/// Why a worktree's branch is considered done.
#[derive(Debug, Clone, Copy, PartialEq, Eq, Structural)]
pub enum DoneReason {
    /// The branch is fully contained in the base branch.
    Merged,
    /// The branch tracked a remote branch that has since been deleted.
    Gone,
}

/// Whether a worktree is a prune candidate, and why, given whether its
/// branch is merged into the base branch and whether its upstream is gone.
/// Bare, locked and detached worktrees, and the base branch's own worktree,
/// never are; `merged` wins over `gone`.
pub open spec fn classify_spec(wt: WorktreeView, base: Seq<char>, merged: bool, gone: bool) -> Option<
    DoneReason,
> {
    if wt.is_bare || wt.locked {
        None
    } else {
        match wt.branch {
            None => None,
            Some(b) => match strip_prefix_spec(b, heads_prefix()) {
                None => None,
                Some(branch) => if branch == base {
                    None
                } else if merged {
                    Some(DoneReason::Merged)
                } else if gone {
                    Some(DoneReason::Gone)
                } else {
                    None
                },
            },
        }
    }
}

/// Classify a worktree as a merged-branch prune candidate.
pub fn classify_worktree(wt: &Worktree, base_branch: &str, merged: bool, gone: bool) -> (r: Option<
    DoneReason,
>)
    ensures
        r == classify_spec(wt@, base_branch@, merged, gone),
{
    if wt.is_bare || wt.locked {
        return None;
    }
    let b = match &wt.branch {
        Some(b) => b,
        None => return None,
    };
    let branch = match strip_prefix(b.as_str(), "refs/heads/") {
        Some(x) => x,
        None => return None,
    };
    if str_eq(branch.as_str(), base_branch) {
        return None;
    }
    if merged {
        Some(DoneReason::Merged)
    } else if gone {
        Some(DoneReason::Gone)
    } else {
        None
    }
}

/// The branch whose merged and gone state must be looked up for `wt`, or
/// `None` when the worktree is skipped without looking (detached, not on a
/// local branch, bare, locked, or on the base branch).
pub open spec fn scan_branch_spec(wt: WorktreeView, base: Seq<char>) -> Option<Seq<char>> {
    match wt.branch {
        None => None,
        Some(b) => match strip_prefix_spec(b, heads_prefix()) {
            None => None,
            Some(branch) => if wt.is_bare || wt.locked || branch == base {
                None
            } else {
                Some(branch)
            },
        },
    }
}

/// The branch to look up for the merged-branch prune, if any.
pub fn merged_scan_branch(wt: &Worktree, base_branch: &str) -> (r: Option<String>)
    ensures
        opt_view_string(r) == scan_branch_spec(wt@, base_branch@),
{
    let b = match &wt.branch {
        Some(b) => b,
        None => return None,
    };
    let branch = match strip_prefix(b.as_str(), "refs/heads/") {
        Some(x) => x,
        None => return None,
    };
    if wt.is_bare || wt.locked || str_eq(branch.as_str(), base_branch) {
        None
    } else {
        Some(branch)
    }
}

/// The view of an optional owned string.
pub open spec fn opt_view_string(o: Option<String>) -> Option<Seq<char>> {
    match o {
        Some(s) => Some(s@),
        None => None,
    }
}

/// Law: the lookup and the classification agree. A worktree skipped before
/// the lookup is never a candidate, and a looked-up one is a candidate
/// exactly when its branch is merged or gone, merged first.
pub proof fn law_scan_then_classify(wt: WorktreeView, base: Seq<char>, merged: bool, gone: bool)
    ensures
        scan_branch_spec(wt, base) is None ==> classify_spec(wt, base, merged, gone) is None,
        scan_branch_spec(wt, base) is Some ==> classify_spec(wt, base, merged, gone) == (if merged {
            Some(DoneReason::Merged)
        } else if gone {
            Some(DoneReason::Gone)
        } else {
            None
        }),
        wt.locked ==> classify_spec(wt, base, merged, gone) is None,
        wt.is_bare ==> classify_spec(wt, base, merged, gone) is None,
        wt.branch is None ==> classify_spec(wt, base, merged, gone) is None,
        wt.branch == Some(heads_prefix() + base) ==> classify_spec(wt, base, merged, gone) is None,
{
    if wt.branch == Some(heads_prefix() + base) {
        let b = heads_prefix() + base;
        assert(b.take(heads_prefix().len() as int) =~= heads_prefix());
        assert(b.skip(heads_prefix().len() as int) =~= base);
    }
}

/// A worktree chosen for the merged-branch prune.
#[derive(Debug)]
pub struct MergedCandidate {
    pub worktree_path: String,
    pub branch: String,
    pub reason: DoneReason,
}

/// The branches of the candidates with the given reason, in order.
pub open spec fn tier_spec(cands: Seq<MergedCandidate>, reason: DoneReason) -> Seq<Seq<char>>
    decreases cands.len(),
{
    if cands.len() == 0 {
        seq![]
    } else {
        let rest = tier_spec(cands.drop_last(), reason);
        if cands.last().reason == reason {
            rest.push(cands.last().branch@)
        } else {
            rest
        }
    }
}

/// The branches of the candidates with the given reason, as listed before
/// the user confirms that tier.
pub fn tier_branches(cands: &Vec<MergedCandidate>, reason: DoneReason) -> (r: Vec<String>)
    ensures
        r@.map_values(|s: String| s@) == tier_spec(cands@, reason),
{
    let mut r: Vec<String> = Vec::new();
    let mut i: usize = 0;
    while i < cands.len()
        invariant
            i <= cands.len(),
            r@.map_values(|s: String| s@) == tier_spec(cands@.take(i as int), reason),
        decreases cands.len() - i,
    {
        let ghost before = r@.map_values(|s: String| s@);
        assert(cands@.take(i + 1).drop_last() =~= cands@.take(i as int));
        if cands[i].reason == reason {
            r.push(owned(cands[i].branch.as_str()));
            assert(r@.map_values(|s: String| s@) =~= before.push(cands@[i as int].branch@));
        }
        i = i + 1;
    }
    assert(cands@.take(i as int) =~= cands@);
    r
}

/// Whether the user approved removing candidates of this reason.
pub fn tier_approved(reason: DoneReason, remove_merged: bool, remove_gone: bool) -> (r: bool)
    ensures
        r == match reason {
            DoneReason::Merged => remove_merged,
            DoneReason::Gone => remove_gone,
        },
{
    match reason {
        DoneReason::Merged => remove_merged,
        DoneReason::Gone => remove_gone,
    }
}

/// Counts from a merged-branch prune.
#[derive(Debug, Clone, Copy, PartialEq, Eq, Structural)]
pub struct MergedOutcome {
    pub merged_removed: usize,
    pub gone_removed: usize,
    pub kept_dirty: usize,
}

impl Default for MergedOutcome {
    fn default() -> (r: MergedOutcome)
        ensures
            r == (MergedOutcome { merged_removed: 0, gone_removed: 0, kept_dirty: 0 }),
    {
        MergedOutcome { merged_removed: 0, gone_removed: 0, kept_dirty: 0 }
    }
}

/// The counts after one approved candidate was handled: removed worktrees
/// count under their reason; a worktree git refused to remove (uncommitted
/// or untracked files) counts as kept.
pub open spec fn record_spec(o: MergedOutcome, reason: DoneReason, removed: bool) -> MergedOutcome {
    if !removed {
        MergedOutcome { kept_dirty: (o.kept_dirty + 1) as usize, ..o }
    } else {
        match reason {
            DoneReason::Merged => MergedOutcome {
                merged_removed: (o.merged_removed + 1) as usize,
                ..o
            },
            DoneReason::Gone => MergedOutcome { gone_removed: (o.gone_removed + 1) as usize, ..o },
        }
    }
}

impl MergedOutcome {
    /// Count one handled candidate.
    pub fn record(&mut self, reason: DoneReason, removed: bool)
        requires
            old(self).merged_removed < usize::MAX,
            old(self).gone_removed < usize::MAX,
            old(self).kept_dirty < usize::MAX,
        ensures
            *final(self) == record_spec(*old(self), reason, removed),
    {
        if !removed {
            self.kept_dirty = self.kept_dirty + 1;
        } else {
            match reason {
                DoneReason::Merged => self.merged_removed = self.merged_removed + 1,
                DoneReason::Gone => self.gone_removed = self.gone_removed + 1,
            }
        }
    }
}

/// What was found out about a candidate being removed.
#[derive(Debug, Clone, Copy, PartialEq, Eq, Structural)]
pub enum MergedEvent {
    /// Nothing yet: the candidate's turn has come.
    Start,
    /// Whether `git worktree remove` (without `--force`) removed the worktree.
    Removed(bool),
}

/// One step of removing a merged or gone candidate.
#[derive(Debug)]
pub enum MergedStep {
    /// Kill a session, ignoring failure (it may not exist).
    KillSessionQuietly { name: String },
    /// Remove the worktree without `--force`; git refuses one holding
    /// uncommitted or untracked files.
    RemoveWorktree { path: String },
    /// Delete the branch: `git branch -D` when `force`, else `-d`.
    DeleteBranch { branch: String, force: bool },
}

/// A `MergedStep` as plain values.
pub enum MergedStepView {
    KillSessionQuietly { name: Seq<char> },
    RemoveWorktree { path: Seq<char> },
    DeleteBranch { branch: Seq<char>, force: bool },
}

impl View for MergedStep {
    type V = MergedStepView;

    open spec fn view(&self) -> MergedStepView {
        match self {
            MergedStep::KillSessionQuietly { name } => MergedStepView::KillSessionQuietly {
                name: name@,
            },
            MergedStep::RemoveWorktree { path } => MergedStepView::RemoveWorktree { path: path@ },
            MergedStep::DeleteBranch { branch, force } => MergedStepView::DeleteBranch {
                branch: branch@,
                force: *force,
            },
        }
    }
}

/// Whether a candidate of this reason is in a tier the user approved.
pub open spec fn approved_spec(reason: DoneReason, remove_merged: bool, remove_gone: bool) -> bool {
    match reason {
        DoneReason::Merged => remove_merged,
        DoneReason::Gone => remove_gone,
    }
}

/// The steps for an approved candidate of `repo` after `event`: at the
/// start, kill its session under both names (quietly) and remove its
/// worktree; once removed, delete its branch (`-d` for a merged branch, `-D`
/// for a gone one); once refused, nothing: the worktree and its branch are
/// kept.
pub open spec fn merged_steps_spec(
    cand: MergedCandidate,
    repo: Seq<char>,
    max_bytes: int,
    event: MergedEvent,
) -> Seq<MergedStepView> {
    match event {
        MergedEvent::Start => seq![
            MergedStepView::KillSessionQuietly {
                name: shorten_spec(zellij_full_name(repo, cand.branch@), max_bytes),
            },
            MergedStepView::KillSessionQuietly { name: tmux_name_spec(repo, cand.branch@) },
            MergedStepView::RemoveWorktree { path: cand.worktree_path@ },
        ],
        MergedEvent::Removed(true) => seq![
            MergedStepView::DeleteBranch {
                branch: cand.branch@,
                force: cand.reason == DoneReason::Gone,
            },
        ],
        MergedEvent::Removed(false) => seq![],
    }
}

/// The next steps for candidate `cand` after `event`, counting the
/// candidate in `outcome` once git has answered the removal. A candidate of
/// a tier the user declined gets no step and is not counted.
pub fn merged_candidate_step(
    cand: &MergedCandidate,
    repo: &str,
    max_bytes: usize,
    remove_merged: bool,
    remove_gone: bool,
    event: &MergedEvent,
    outcome: &mut MergedOutcome,
) -> (r: Vec<MergedStep>)
    requires
        old(outcome).merged_removed < usize::MAX,
        old(outcome).gone_removed < usize::MAX,
        old(outcome).kept_dirty < usize::MAX,
    ensures
        !approved_spec(cand.reason, remove_merged, remove_gone) ==> r@.len() == 0
            && *final(outcome) == *old(outcome),
        approved_spec(cand.reason, remove_merged, remove_gone) ==> r@.map_values(
            |s: MergedStep| s@,
        ) == merged_steps_spec(*cand, repo@, max_bytes as int, *event),
        approved_spec(cand.reason, remove_merged, remove_gone) && *event == MergedEvent::Start
            ==> *final(outcome) == *old(outcome),
        approved_spec(cand.reason, remove_merged, remove_gone) && *event == MergedEvent::Removed(
            true,
        ) ==> *final(outcome) == record_spec(*old(outcome), cand.reason, true),
        approved_spec(cand.reason, remove_merged, remove_gone) && *event == MergedEvent::Removed(
            false,
        ) ==> *final(outcome) == record_spec(*old(outcome), cand.reason, false),
{
    let mut r: Vec<MergedStep> = Vec::new();
    if !tier_approved(cand.reason, remove_merged, remove_gone) {
        return r;
    }
    match event {
        MergedEvent::Start => {
            let sn = SessionName::new(repo, cand.branch.as_str());
            r.push(MergedStep::KillSessionQuietly { name: sn.as_zellij_name_with_max_bytes(max_bytes) });
            r.push(MergedStep::KillSessionQuietly { name: sn.as_tmux_name() });
            r.push(MergedStep::RemoveWorktree { path: owned(cand.worktree_path.as_str()) });
        },
        MergedEvent::Removed(removed) => {
            outcome.record(cand.reason, *removed);
            if *removed {
                let force = match cand.reason {
                    DoneReason::Merged => false,
                    DoneReason::Gone => true,
                };
                r.push(MergedStep::DeleteBranch { branch: owned(cand.branch.as_str()), force });
            }
        },
    }
    assert(r@.map_values(|s: MergedStep| s@) =~= merged_steps_spec(
        *cand,
        repo@,
        max_bytes as int,
        *event,
    ));
    r
}

/// The positions, in order, of the candidates whose tier was approved.
pub open spec fn plan_spec(reasons: Seq<DoneReason>, remove_merged: bool, remove_gone: bool) -> Seq<
    int,
>
    decreases reasons.len(),
{
    if reasons.len() == 0 {
        seq![]
    } else {
        let rest = plan_spec(reasons.drop_last(), remove_merged, remove_gone);
        if approved_spec(reasons.last(), remove_merged, remove_gone) {
            rest.push(reasons.len() - 1)
        } else {
            rest
        }
    }
}

/// The reasons of the candidates, in order.
pub open spec fn candidate_reasons(cands: Seq<MergedCandidate>) -> Seq<DoneReason> {
    cands.map_values(|c: MergedCandidate| c.reason)
}

/// When both tiers are declined, nothing is removed.
proof fn lemma_plan_declined(reasons: Seq<DoneReason>)
    ensures
        plan_spec(reasons, false, false).len() == 0,
    decreases reasons.len(),
{
    if reasons.len() > 0 {
        lemma_plan_declined(reasons.drop_last());
    }
}

/// Which candidates to remove: those of the approved tiers, in order. When
/// the user declines both tiers, none.
pub fn merged_removal_plan(cands: &Vec<MergedCandidate>, remove_merged: bool, remove_gone: bool) -> (r:
    Vec<usize>)
    ensures
        r@.map_values(|i: usize| i as int) == plan_spec(
            candidate_reasons(cands@),
            remove_merged,
            remove_gone,
        ),
        !remove_merged && !remove_gone ==> r@.len() == 0,
{
    let ghost rs = candidate_reasons(cands@);
    let mut r: Vec<usize> = Vec::new();
    let mut i: usize = 0;
    while i < cands.len()
        invariant
            i <= cands.len(),
            rs == candidate_reasons(cands@),
            r@.map_values(|k: usize| k as int) == plan_spec(rs.take(i as int), remove_merged, remove_gone),
        decreases cands.len() - i,
    {
        let ghost before = r@.map_values(|k: usize| k as int);
        assert(rs.take(i + 1).drop_last() =~= rs.take(i as int));
        if tier_approved(cands[i].reason, remove_merged, remove_gone) {
            r.push(i);
            assert(r@.map_values(|k: usize| k as int) =~= before.push(i as int));
        }
        i = i + 1;
    }
    assert(rs.take(i as int) =~= rs);
    proof {
        lemma_plan_declined(rs);
    }
    r
}

/// Law: a worktree that git refuses to remove (it holds uncommitted or
/// untracked work) is kept together with its branch and counted as kept,
/// and a merged branch is deleted with `-d`, only a gone one with `-D`.
pub proof fn law_kept_worktrees_keep_their_branch(
    cand: MergedCandidate,
    repo: Seq<char>,
    max_bytes: int,
    o: MergedOutcome,
)
    requires
        o.kept_dirty < usize::MAX,
    ensures
        merged_steps_spec(cand, repo, max_bytes, MergedEvent::Removed(false)).len() == 0,
        record_spec(o, cand.reason, false).kept_dirty == o.kept_dirty + 1,
        record_spec(o, cand.reason, false).merged_removed == o.merged_removed,
        record_spec(o, cand.reason, false).gone_removed == o.gone_removed,
        merged_steps_spec(cand, repo, max_bytes, MergedEvent::Removed(true))[0]
            == (MergedStepView::DeleteBranch {
            branch: cand.branch@,
            force: cand.reason == DoneReason::Gone,
        }),
{
}

/// The counts after handling the candidates `events` (reason, and whether
/// the worktree was removed) in turn, from zero.
pub open spec fn tally_spec(events: Seq<(DoneReason, bool)>) -> MergedOutcome
    decreases events.len(),
{
    if events.len() == 0 {
        MergedOutcome { merged_removed: 0, gone_removed: 0, kept_dirty: 0 }
    } else {
        record_spec(tally_spec(events.drop_last()), events.last().0, events.last().1)
    }
}

/// Law: every handled candidate is counted exactly once, as removed under
/// its reason or as kept; and a kept worktree is never counted as removed.
pub proof fn law_tally_counts_each_candidate_once(events: Seq<(DoneReason, bool)>)
    requires
        events.len() < usize::MAX,
    ensures
        tally_spec(events).merged_removed + tally_spec(events).gone_removed + tally_spec(
            events,
        ).kept_dirty == events.len(),
        tally_spec(events).kept_dirty == events.filter(|e: (DoneReason, bool)| !e.1).len(),
    decreases events.len(),
{
    reveal(Seq::filter);
    if events.len() > 0 {
        law_tally_counts_each_candidate_once(events.drop_last());
    }
}

// ---------------------------------------------------------------------------
// A whole merged-branch prune

/// The steps of `steps`, each tagged with the candidate position `i`.
pub open spec fn tagged(i: int, steps: Seq<MergedStepView>) -> Seq<(int, MergedStepView)> {
    steps.map_values(|s: MergedStepView| (i, s))
}

/// All the steps candidate `c` gets when git answers its removal with
/// `removed`: those at its start, then those after the answer.
pub open spec fn candidate_steps(
    c: MergedCandidate,
    repo: Seq<char>,
    max_bytes: int,
    removed: bool,
) -> Seq<MergedStepView> {
    merged_steps_spec(c, repo, max_bytes, MergedEvent::Start) + merged_steps_spec(
        c,
        repo,
        max_bytes,
        MergedEvent::Removed(removed),
    )
}

/// The steps of a whole merged-branch prune, each tagged with its
/// candidate's position: every candidate in turn, those of a declined tier
/// skipped, git answering the removal of candidate `i` with `removed[i]`.
pub open spec fn prune_run_steps(
    cands: Seq<MergedCandidate>,
    repo: Seq<char>,
    max_bytes: int,
    remove_merged: bool,
    remove_gone: bool,
    removed: Seq<bool>,
) -> Seq<(int, MergedStepView)>
    decreases cands.len(),
{
    if cands.len() == 0 {
        seq![]
    } else {
        let i = cands.len() - 1;
        let rest = prune_run_steps(
            cands.drop_last(),
            repo,
            max_bytes,
            remove_merged,
            remove_gone,
            removed,
        );
        if approved_spec(cands[i].reason, remove_merged, remove_gone) {
            rest + tagged(i, candidate_steps(cands[i], repo, max_bytes, removed[i]))
        } else {
            rest
        }
    }
}

/// The counts after a whole merged-branch prune, from zero.
pub open spec fn prune_run_outcome(
    cands: Seq<MergedCandidate>,
    remove_merged: bool,
    remove_gone: bool,
    removed: Seq<bool>,
) -> MergedOutcome
    decreases cands.len(),
{
    if cands.len() == 0 {
        MergedOutcome { merged_removed: 0, gone_removed: 0, kept_dirty: 0 }
    } else {
        let i = cands.len() - 1;
        let rest = prune_run_outcome(cands.drop_last(), remove_merged, remove_gone, removed);
        if approved_spec(cands[i].reason, remove_merged, remove_gone) {
            record_spec(rest, cands[i].reason, removed[i])
        } else {
            rest
        }
    }
}

/// Every step of a whole prune belongs to a candidate of an approved tier,
/// and is one of that candidate's steps.
proof fn lemma_run_steps_belong(
    cands: Seq<MergedCandidate>,
    repo: Seq<char>,
    max_bytes: int,
    remove_merged: bool,
    remove_gone: bool,
    removed: Seq<bool>,
)
    requires
        cands.len() <= removed.len(),
    ensures
        forall|k: int|
            #![trigger prune_run_steps(cands, repo, max_bytes, remove_merged, remove_gone, removed)[k]]
            0 <= k < prune_run_steps(cands, repo, max_bytes, remove_merged, remove_gone, removed).len()
                ==> {
                let (j, s) = prune_run_steps(
                    cands,
                    repo,
                    max_bytes,
                    remove_merged,
                    remove_gone,
                    removed,
                )[k];
                &&& 0 <= j < cands.len()
                &&& approved_spec(cands[j].reason, remove_merged, remove_gone)
                &&& candidate_steps(cands[j], repo, max_bytes, removed[j]).contains(s)
            },
    decreases cands.len(),
{
    if cands.len() > 0 {
        let i = cands.len() - 1;
        let short = cands.drop_last();
        let rest = prune_run_steps(short, repo, max_bytes, remove_merged, remove_gone, removed);
        let all = prune_run_steps(cands, repo, max_bytes, remove_merged, remove_gone, removed);
        lemma_run_steps_belong(short, repo, max_bytes, remove_merged, remove_gone, removed);
        assert forall|k: int| 0 <= k < all.len() implies {
            let (j, s) = #[trigger] all[k];
            &&& 0 <= j < cands.len()
            &&& approved_spec(cands[j].reason, remove_merged, remove_gone)
            &&& candidate_steps(cands[j], repo, max_bytes, removed[j]).contains(s)
        } by {
            if k < rest.len() {
                assert(all[k] == rest[k]);
                let (j, s) = rest[k];
                assert(short[j] == cands[j]);
            } else {
                let local = candidate_steps(cands[i], repo, max_bytes, removed[i]);
                assert(all[k] == (i, local[k - rest.len()]));
            }
        }
    }
}

/// Law: in a whole merged-branch prune, a candidate of an approved tier
/// whose worktree git refuses to remove (it holds uncommitted or untracked
/// work) gets only the quiet session kills and the removal without
/// `--force`; no branch deletion is issued for it, nor (when the
/// candidates' branches differ) for its branch at all.
pub proof fn law_prune_keeps_dirty_branch(
    cands: Seq<MergedCandidate>,
    repo: Seq<char>,
    max_bytes: int,
    remove_merged: bool,
    remove_gone: bool,
    removed: Seq<bool>,
    i: int,
)
    requires
        removed.len() == cands.len(),
        0 <= i < cands.len(),
        !removed[i],
    ensures
        ({
            let steps = prune_run_steps(cands, repo, max_bytes, remove_merged, remove_gone, removed);
            &&& forall|k: int|
                0 <= k < steps.len() && #[trigger] steps[k].0 == i ==> !(steps[k].1 is DeleteBranch)
            &&& (forall|j: int| 0 <= j < cands.len() && j != i ==> #[trigger] cands[j].branch@ != cands[i].branch@)
                ==> forall|k: int| 0 <= k < steps.len() ==> !(#[trigger] steps[k].1 matches MergedStepView::DeleteBranch { branch, .. } && branch == cands[i].branch@)
        }),
{
    let steps = prune_run_steps(cands, repo, max_bytes, remove_merged, remove_gone, removed);
    lemma_run_steps_belong(cands, repo, max_bytes, remove_merged, remove_gone, removed);
    assert forall|k: int| 0 <= k < steps.len() && #[trigger] steps[k].0 == i implies !(steps[k].1 is DeleteBranch) by {
        let (j, s) = steps[k];
        let local = candidate_steps(cands[j], repo, max_bytes, removed[j]);
        assert(local.contains(s));
        assert(local.len() == 3);
    }
    if forall|j: int| 0 <= j < cands.len() && j != i ==> #[trigger] cands[j].branch@ != cands[i].branch@ {
        assert forall|k: int| 0 <= k < steps.len() implies !(#[trigger] steps[k].1 matches MergedStepView::DeleteBranch { branch, .. } && branch == cands[i].branch@) by {
            let (j, s) = steps[k];
            let local = candidate_steps(cands[j], repo, max_bytes, removed[j]);
            assert(local.contains(s));
            let x = choose|x: int| 0 <= x < local.len() && local[x] == s;
            if j != i {
                assert(cands[j].branch@ != cands[i].branch@);
            } else {
                assert(local.len() == 3);
            }
        }
    }
}

/// Law: a whole merged-branch prune issues no step for a candidate of a
/// tier the user declined (no session kill, no worktree removal, no branch
/// deletion), and does not count it; when both tiers are declined, or
/// there are no candidates, it issues nothing and all counts stay zero.
pub proof fn law_prune_leaves_declined_tiers(
    cands: Seq<MergedCandidate>,
    repo: Seq<char>,
    max_bytes: int,
    remove_merged: bool,
    remove_gone: bool,
    removed: Seq<bool>,
)
    requires
        removed.len() == cands.len(),
    ensures
        forall|k: int|
            0 <= k < prune_run_steps(cands, repo, max_bytes, remove_merged, remove_gone, removed).len()
                ==> approved_spec(
                cands[#[trigger] prune_run_steps(cands, repo, max_bytes, remove_merged, remove_gone, removed)[k].0].reason,
                remove_merged,
                remove_gone,
            ),
        (!remove_merged && !remove_gone) || cands.len() == 0 ==> prune_run_steps(
            cands,
            repo,
            max_bytes,
            remove_merged,
            remove_gone,
            removed,
        ).len() == 0 && prune_run_outcome(cands, remove_merged, remove_gone, removed)
            == (MergedOutcome { merged_removed: 0, gone_removed: 0, kept_dirty: 0 }),
{
    lemma_run_steps_belong(cands, repo, max_bytes, remove_merged, remove_gone, removed);
    let steps = prune_run_steps(cands, repo, max_bytes, remove_merged, remove_gone, removed);
    if !remove_merged && !remove_gone {
        if steps.len() > 0 {
            let (j, s) = steps[0];
            assert(approved_spec(cands[j].reason, remove_merged, remove_gone));
        }
        lemma_declined_outcome(cands, removed);
    }
}

proof fn lemma_outcome_bounded(
    cands: Seq<MergedCandidate>,
    remove_merged: bool,
    remove_gone: bool,
    removed: Seq<bool>,
)
    requires
        cands.len() < usize::MAX,
    ensures
        ({
            let o = prune_run_outcome(cands, remove_merged, remove_gone, removed);
            o.merged_removed + o.gone_removed + o.kept_dirty <= cands.len()
        }),
    decreases cands.len(),
{
    if cands.len() > 0 {
        lemma_outcome_bounded(cands.drop_last(), remove_merged, remove_gone, removed);
    }
}

proof fn lemma_outcome_agree(
    cands: Seq<MergedCandidate>,
    remove_merged: bool,
    remove_gone: bool,
    a: Seq<bool>,
    b: Seq<bool>,
)
    requires
        cands.len() <= a.len(),
        cands.len() <= b.len(),
        forall|j: int| 0 <= j < cands.len() ==> a[j] == b[j],
    ensures
        prune_run_outcome(cands, remove_merged, remove_gone, a) == prune_run_outcome(
            cands,
            remove_merged,
            remove_gone,
            b,
        ),
    decreases cands.len(),
{
    if cands.len() > 0 {
        lemma_outcome_agree(cands.drop_last(), remove_merged, remove_gone, a, b);
        assert(a[cands.len() - 1] == b[cands.len() - 1]);
    }
}

proof fn lemma_outcome_flip(
    cands: Seq<MergedCandidate>,
    remove_merged: bool,
    remove_gone: bool,
    removed: Seq<bool>,
    i: int,
)
    requires
        cands.len() <= removed.len(),
        cands.len() < usize::MAX,
        0 <= i < cands.len(),
        !removed[i],
        approved_spec(cands[i].reason, remove_merged, remove_gone),
    ensures
        ({
            let a = prune_run_outcome(cands, remove_merged, remove_gone, removed);
            let b = prune_run_outcome(cands, remove_merged, remove_gone, removed.update(i, true));
            &&& a.kept_dirty == b.kept_dirty + 1
            &&& a.merged_removed + (if cands[i].reason == DoneReason::Merged { 1int } else { 0 })
                == b.merged_removed
            &&& a.gone_removed + (if cands[i].reason == DoneReason::Gone { 1int } else { 0 })
                == b.gone_removed
        }),
    decreases cands.len(),
{
    let n = cands.len() - 1;
    let short = cands.drop_last();
    let flipped = removed.update(i, true);
    lemma_outcome_bounded(short, remove_merged, remove_gone, removed);
    lemma_outcome_bounded(short, remove_merged, remove_gone, flipped);
    if i == n {
        lemma_outcome_agree(short, remove_merged, remove_gone, removed, flipped);
    } else {
        lemma_outcome_flip(short, remove_merged, remove_gone, removed, i);
        assert(short[i] == cands[i]);
        assert(flipped[n] == removed[n]);
    }
}

/// Law: in a whole merged-branch prune, a candidate of an approved tier
/// whose worktree git refuses to remove is counted as kept, not as removed:
/// against the same prune in which git removed it, the kept count is one
/// higher and the removed count of its reason one lower, the rest equal.
pub proof fn law_prune_counts_dirty_as_kept(
    cands: Seq<MergedCandidate>,
    remove_merged: bool,
    remove_gone: bool,
    removed: Seq<bool>,
    i: int,
)
    requires
        removed.len() == cands.len(),
        cands.len() < usize::MAX,
        0 <= i < cands.len(),
        !removed[i],
        approved_spec(cands[i].reason, remove_merged, remove_gone),
    ensures
        ({
            let a = prune_run_outcome(cands, remove_merged, remove_gone, removed);
            let b = prune_run_outcome(cands, remove_merged, remove_gone, removed.update(i, true));
            &&& a.kept_dirty == b.kept_dirty + 1
            &&& a.merged_removed + (if cands[i].reason == DoneReason::Merged { 1int } else { 0 })
                == b.merged_removed
            &&& a.gone_removed + (if cands[i].reason == DoneReason::Gone { 1int } else { 0 })
                == b.gone_removed
        }),
{
    lemma_outcome_flip(cands, remove_merged, remove_gone, removed, i);
}

proof fn lemma_declined_outcome(cands: Seq<MergedCandidate>, removed: Seq<bool>)
    ensures
        prune_run_outcome(cands, false, false, removed) == (MergedOutcome {
            merged_removed: 0,
            gone_removed: 0,
            kept_dirty: 0,
        }),
    decreases cands.len(),
{
    if cands.len() > 0 {
        lemma_declined_outcome(cands.drop_last(), removed);
    }
}

/// What one repository's prune did.
#[derive(Debug, Clone, Copy, PartialEq, Eq, Structural)]
pub struct PruneOutcome {
    pub stale_worktrees: usize,
    pub orphan_dirs: usize,
    pub merged: MergedOutcome,
}

/// Whether the prune changed anything.
pub open spec fn touched_spec(o: PruneOutcome) -> bool {
    o.stale_worktrees > 0 || o.orphan_dirs > 0 || o.merged.merged_removed > 0
        || o.merged.gone_removed > 0 || o.merged.kept_dirty > 0
}

/// The one-line report of a prune of `repo`. The orphan count appears only
/// when orphans were looked for, the merged counts only when merged
/// branches were, and the kept count only when some worktree was kept.
pub open spec fn summary_spec(o: PruneOutcome, repo: Seq<char>, orphans: bool, merged: bool) -> Seq<
    char,
> {
    "Pruned "@ + decimal(o.stale_worktrees as nat) + " stale worktree(s)"@ + (if orphans {
        ", removed "@ + decimal(o.orphan_dirs as nat) + " orphan dir(s)"@
    } else {
        Seq::empty()
    }) + (if merged {
        ", removed "@ + decimal(o.merged.merged_removed as nat) + " merged + "@ + decimal(
            o.merged.gone_removed as nat,
        ) + " gone worktree(s)"@ + (if o.merged.kept_dirty > 0 {
            ", kept "@ + decimal(o.merged.kept_dirty as nat) + " (uncommitted changes)"@
        } else {
            Seq::empty()
        })
    } else {
        Seq::empty()
    }) + " for '"@ + repo + "'"@
}

impl PruneOutcome {
    /// Whether this prune changed anything (which repos the `--all` table
    /// lists).
    pub fn touched(&self) -> (r: bool)
        ensures
            r == touched_spec(*self),
    {
        self.stale_worktrees > 0 || self.orphan_dirs > 0 || self.merged.merged_removed > 0
            || self.merged.gone_removed > 0 || self.merged.kept_dirty > 0
    }

    /// The report line for a prune of `repo_name`.
    pub fn summary(&self, repo_name: &str, orphans: bool, merged: bool) -> (r: String)
        ensures
            r@ == summary_spec(*self, repo_name@, orphans, merged),
    {
        let stale = decimal_string(self.stale_worktrees);
        let mut s = concat3("Pruned ", stale.as_str(), " stale worktree(s)");
        let ghost s0 = s@;
        let mut orphan_part = String::new();
        if orphans {
            let n = decimal_string(self.orphan_dirs);
            orphan_part = concat3(", removed ", n.as_str(), " orphan dir(s)");
        }
        let mut merged_part = String::new();
        if merged {
            let m = decimal_string(self.merged.merged_removed);
            let g = decimal_string(self.merged.gone_removed);
            let a = concat3(", removed ", m.as_str(), " merged + ");
            merged_part = concat3(a.as_str(), g.as_str(), " gone worktree(s)");
            if self.merged.kept_dirty > 0 {
                let k = decimal_string(self.merged.kept_dirty);
                let kept = concat3(", kept ", k.as_str(), " (uncommitted changes)");
                merged_part = concat2(merged_part.as_str(), kept.as_str());
            }
        }
        s = concat3(s.as_str(), orphan_part.as_str(), merged_part.as_str());
        let r = concat3(s.as_str(), " for '", repo_name);
        let r = concat2(r.as_str(), "'");
        proof {
            let op: Seq<char> = if orphans {
                ", removed "@ + decimal(self.orphan_dirs as nat) + " orphan dir(s)"@
            } else {
                Seq::empty()
            };
            let kp: Seq<char> = if self.merged.kept_dirty > 0 {
                ", kept "@ + decimal(self.merged.kept_dirty as nat) + " (uncommitted changes)"@
            } else {
                Seq::empty()
            };
            let mp: Seq<char> = if merged {
                ", removed "@ + decimal(self.merged.merged_removed as nat) + " merged + "@
                    + decimal(self.merged.gone_removed as nat) + " gone worktree(s)"@ + kp
            } else {
                Seq::empty()
            };
            assert(orphan_part@ =~= op);
            assert(merged_part@ =~= mp);
            assert(r@ =~= summary_spec(*self, repo_name@, orphans, merged));
        }
        r
    }
}

/// One row of the `--all` summary table.
#[derive(Debug)]
pub struct PruneSummaryRow {
    pub repo: String,
    pub stale: usize,
    pub orphans: usize,
    pub merged: usize,
    pub gone: usize,
    pub kept: usize,
}

impl PruneSummaryRow {
    /// The row for `repo`'s prune outcome.
    pub fn new(repo: &str, outcome: &PruneOutcome) -> (r: PruneSummaryRow)
        ensures
            r.repo@ == repo@,
            r.stale == outcome.stale_worktrees,
            r.orphans == outcome.orphan_dirs,
            r.merged == outcome.merged.merged_removed,
            r.gone == outcome.merged.gone_removed,
            r.kept == outcome.merged.kept_dirty,
    {
        PruneSummaryRow {
            repo: owned(repo),
            stale: outcome.stale_worktrees,
            orphans: outcome.orphan_dirs,
            merged: outcome.merged.merged_removed,
            gone: outcome.merged.gone_removed,
            kept: outcome.merged.kept_dirty,
        }
    }
}

} // verus!
