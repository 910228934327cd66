//! Repository layouts and the text that git prints: worktree listings,
//! branch listings, repository names.
use vstd::prelude::*;

use crate::text::{
    chars_of, concat3, ends_with, find_char_from, find_from, has_char, has_prefix, has_suffix,
    join_lines, join_path, join_spec, lemma_find_from, lemma_find_from_unique,
    lemma_lines_of_joined, lines, lines_spec, owned, plain_lines, starts_with, starts_with_at,
    str_eq, string_from_range, strip_prefix, strip_prefix_spec, trim, trim_spec, views,
};

verus! {

broadcast use vstd::string::group_string_axioms;

// ---------------------------------------------------------------------------
// Layouts

/// On-disk layout of a grove-managed repository.
#[derive(Debug)]
pub enum RepoLayout {
    /// `<container>/.bare` holds the git data and each worktree is a direct
    /// child of `<container>`.
    Container { container: String },
    /// `<bare>` is itself a bare repository and worktrees live under
    /// `<bare>/worktrees`.
    LegacyBare { bare: String },
}

/// What the filesystem shows at the three places layout detection looks.
#[derive(Debug, Clone, Copy)]
pub struct LayoutProbe {
    /// `<repo>/.bare/HEAD` is a file.
    pub bare_head_is_file: bool,
    /// `<repo>/HEAD` is a file.
    pub head_is_file: bool,
    /// `<repo>/objects` is a directory.
    pub objects_is_dir: bool,
}

/// Errors about repositories and git output.
#[derive(Debug)]
pub enum GitError {
    /// The path holds neither a `.bare` container nor a bare repository.
    NotGroveRepo { path: String },
    /// No repository name can be taken from the URL.
    NoRepoName { url: String },
    /// The directory to create already exists.
    DestinationExists { path: String },
    /// A git command failed.
    Command { message: String },
}

impl GitError {
    /// The message shown to the user.
    pub fn message(&self) -> (r: String)
        ensures
            r@ == match self {
                GitError::NotGroveRepo { path } => path@ + " is not a grove-managed repository"@
                    + " (no .bare container or bare repo found)"@,
                GitError::NoRepoName { url } => "Could not extract repo name from URL: "@ + url@,
                GitError::DestinationExists { path } => "Destination already exists: "@ + path@,
                GitError::Command { message } => message@,
            },
    {
        match self {
            GitError::NotGroveRepo { path } => concat3(
                path.as_str(),
                " is not a grove-managed repository",
                " (no .bare container or bare repo found)",
            ),
            GitError::NoRepoName { url } => crate::text::concat2(
                "Could not extract repo name from URL: ",
                url.as_str(),
            ),
            GitError::DestinationExists { path } => crate::text::concat2(
                "Destination already exists: ",
                path.as_str(),
            ),
            GitError::Command { message } => owned(message.as_str()),
        }
    }
}

/// The `.bare` directory name.
pub open spec fn dot_bare() -> Seq<char> {
    seq!['.', 'b', 'a', 'r', 'e']
}

/// The `worktrees` directory name.
pub open spec fn worktrees_dir() -> Seq<char> {
    seq!['w', 'o', 'r', 'k', 't', 'r', 'e', 'e', 's']
}

/// `HEAD`.
pub open spec fn head_name() -> Seq<char> {
    seq!['H', 'E', 'A', 'D']
}

/// `objects`.
pub open spec fn objects_name() -> Seq<char> {
    seq!['o', 'b', 'j', 'e', 'c', 't', 's']
}

proof fn reveal_layout_names()
    ensures
        ".bare"@ == dot_bare(),
        "worktrees"@ == worktrees_dir(),
        "HEAD"@ == head_name(),
        "objects"@ == objects_name(),
{
    reveal_strlit(".bare");
    reveal_strlit("worktrees");
    reveal_strlit("HEAD");
    reveal_strlit("objects");
    assert(".bare"@ =~= dot_bare());
    assert("worktrees"@ =~= worktrees_dir());
    assert("HEAD"@ =~= head_name());
    assert("objects"@ =~= objects_name());
}

impl LayoutProbe {
    /// The three paths that layout detection inspects, in the order of the
    /// fields: `<repo>/.bare/HEAD`, `<repo>/HEAD`, `<repo>/objects`.
    pub fn paths(repo_path: &str) -> (r: (String, String, String))
        ensures
            r.0@ == join_spec(join_spec(repo_path@, dot_bare()), head_name()),
            r.1@ == join_spec(repo_path@, head_name()),
            r.2@ == join_spec(repo_path@, objects_name()),
    {
        proof {
            reveal_layout_names();
        }
        let bare = join_path(repo_path, ".bare");
        (join_path(bare.as_str(), "HEAD"), join_path(repo_path, "HEAD"), join_path(repo_path, "objects"))
    }
}

/// The view of a layout: which kind, and its root path.
pub open spec fn layout_view(l: &RepoLayout) -> (bool, Seq<char>) {
    match l {
        RepoLayout::Container { container } => (true, container@),
        RepoLayout::LegacyBare { bare } => (false, bare@),
    }
}

impl RepoLayout {
    /// Detect the layout of a tracked repository from its recorded path and
    /// what the filesystem shows there: a `.bare/HEAD` file makes a container;
    /// otherwise a `HEAD` file beside an `objects` directory makes a legacy
    /// bare repository; otherwise the path is refused.
    pub fn detect(repo_path: &str, probe: LayoutProbe) -> (r: Result<RepoLayout, GitError>)
        ensures
            probe.bare_head_is_file ==> (r matches Ok(RepoLayout::Container { container })
                && container@ == repo_path@),
            !probe.bare_head_is_file && probe.head_is_file && probe.objects_is_dir ==> (r matches Ok(
                RepoLayout::LegacyBare { bare },
            ) && bare@ == repo_path@),
            !probe.bare_head_is_file && !(probe.head_is_file && probe.objects_is_dir) ==> (r matches Err(
                GitError::NotGroveRepo { path },
            ) && path@ == repo_path@),
    {
        if probe.bare_head_is_file {
            return Ok(RepoLayout::Container { container: owned(repo_path) });
        }
        if probe.head_is_file && probe.objects_is_dir {
            return Ok(RepoLayout::LegacyBare { bare: owned(repo_path) });
        }
        Err(GitError::NotGroveRepo { path: owned(repo_path) })
    }

    /// The directory to run git commands against.
    pub fn git_dir(&self) -> (r: String)
        ensures
            r@ == match self {
                RepoLayout::Container { container } => join_spec(container@, dot_bare()),
                RepoLayout::LegacyBare { bare } => bare@,
            },
    {
        proof {
            reveal_layout_names();
        }
        match self {
            RepoLayout::Container { container } => join_path(container.as_str(), ".bare"),
            RepoLayout::LegacyBare { bare } => owned(bare.as_str()),
        }
    }

    /// The directory under which worktree checkouts are placed.
    pub fn worktree_base(&self) -> (r: String)
        ensures
            r@ == worktree_base_spec(self),
    {
        proof {
            reveal_layout_names();
        }
        match self {
            RepoLayout::Container { container } => owned(container.as_str()),
            RepoLayout::LegacyBare { bare } => join_path(bare.as_str(), "worktrees"),
        }
    }

    /// The checkout path for a worktree of the given branch.
    pub fn worktree_path(&self, branch: &str) -> (r: String)
        ensures
            r@ == join_spec(worktree_base_spec(self), branch@),
    {
        let base = self.worktree_base();
        join_path(base.as_str(), branch)
    }
}

/// The directory under which worktree checkouts are placed.
pub open spec fn worktree_base_spec(l: &RepoLayout) -> Seq<char> {
    match l {
        RepoLayout::Container { container } => container@,
        RepoLayout::LegacyBare { bare } => join_spec(bare@, worktrees_dir()),
    }
}

// ---------------------------------------------------------------------------
// Repository names

/// Index just past the last `c` in `s`, or 0 when `s` holds none.
pub open spec fn after_last(s: Seq<char>, c: char) -> int
    decreases s.len(),
{
    if s.len() == 0 {
        0
    } else if s.last() == c {
        s.len() as int
    } else {
        after_last(s.drop_last(), c)
    }
}

/// `.git`.
pub open spec fn git_suffix() -> Seq<char> {
    seq!['.', 'g', 'i', 't']
}

/// `str::trim_end_matches(".git")`: every trailing `.git` removed.
pub open spec fn trim_git_suffix(s: Seq<char>) -> Seq<char>
    decreases s.len(),
{
    if has_suffix(s, git_suffix()) {
        trim_git_suffix(s.take(s.len() - 4))
    } else {
        s
    }
}

/// Where the repository name starts in a URL: after its last `/`, or, for
/// an SSH URL with no `/` (`host:repo.git`), after its last `:`.
pub open spec fn name_start(url: Seq<char>) -> int {
    if after_last(url, '/') > 0 {
        after_last(url, '/')
    } else {
        after_last(url, ':')
    }
}

/// The repository name a URL names: the text after its last `/` (after its
/// last `:` when it has no `/`; the whole URL when it has neither), without
/// any trailing `.git`.
pub open spec fn repo_name_spec(url: Seq<char>) -> Seq<char> {
    trim_git_suffix(url.skip(name_start(url)))
}

proof fn lemma_after_last(s: Seq<char>, c: char)
    ensures
        0 <= after_last(s, c) <= s.len(),
        forall|k: int| after_last(s, c) <= k < s.len() ==> s[k] != c,
        after_last(s, c) > 0 ==> s[after_last(s, c) - 1] == c,
    decreases s.len(),
{
    if s.len() > 0 && s.last() != c {
        let t = s.drop_last();
        lemma_after_last(t, c);
        assert forall|k: int| after_last(s, c) <= k < s.len() implies s[k] != c by {
            if k < t.len() {
                assert(s[k] == t[k]);
            }
        }
    }
}

proof fn lemma_after_last_unique(s: Seq<char>, c: char, m: int)
    requires
        0 <= m <= s.len(),
        forall|k: int| m <= k < s.len() ==> s[k] != c,
        m > 0 ==> s[m - 1] == c,
    ensures
        after_last(s, c) == m,
    decreases s.len(),
{
    if s.len() > 0 && m < s.len() {
        lemma_after_last_unique(s.drop_last(), c, m);
    }
}

proof fn lemma_trim_git_suffix(s: Seq<char>)
    ensures
        trim_git_suffix(s).len() <= s.len(),
        trim_git_suffix(s) == s.take(trim_git_suffix(s).len() as int),
        !has_suffix(trim_git_suffix(s), git_suffix()),
    decreases s.len(),
{
    if has_suffix(s, git_suffix()) {
        let t = s.take(s.len() - 4);
        lemma_trim_git_suffix(t);
        assert(t.take(trim_git_suffix(t).len() as int) =~= s.take(
            trim_git_suffix(t).len() as int,
        ));
    } else {
        assert(s.take(s.len() as int) =~= s);
    }
}

/// Extract a repository name from a URL, such as `myrepo` from
/// `https://github.com/user/myrepo.git` or `git@github.com:user/myrepo.git`.
pub fn repo_name_from_url(url: &str) -> (r: Result<String, GitError>)
    ensures
        repo_name_spec(url@).len() > 0 ==> (r matches Ok(name) && name@ == repo_name_spec(url@)),
        repo_name_spec(url@).len() == 0 ==> (r matches Err(GitError::NoRepoName { url: u })
            && u@ == url@),
{
    let v = chars_of(url);
    let mut start = v.len();
    while start > 0 && v[start - 1] != '/'
        invariant
            start <= v.len(),
            forall|k: int| start <= k < v.len() ==> v@[k] != '/',
        decreases start,
    {
        start = start - 1;
    }
    proof {
        lemma_after_last_unique(v@, '/', start as int);
    }
    if start == 0 {
        start = v.len();
        while start > 0 && v[start - 1] != ':'
            invariant
                start <= v.len(),
                forall|k: int| start <= k < v.len() ==> v@[k] != ':',
            decreases start,
        {
            start = start - 1;
        }
        proof {
            lemma_after_last_unique(v@, ':', start as int);
        }
    }
    assert(start == name_start(v@));
    let ghost base = v@.skip(start as int);
    let mut end = v.len();
    let suffix = chars_of(".git");
    proof {
        reveal_strlit(".git");
        assert(".git"@ =~= git_suffix());
        assert(v@.subrange(start as int, end as int) =~= base);
    }
    while end - start >= 4 && starts_with_at(&v, end - 4, &suffix)
        invariant
            start <= end <= v.len(),
            suffix@ == git_suffix(),
            v@.skip(start as int) == base,
            trim_git_suffix(base) == trim_git_suffix(v@.subrange(start as int, end as int)),
        decreases end,
    {
        let ghost cur = v@.subrange(start as int, end as int);
        assert(v@.skip(end - 4).take(4) =~= cur.skip(cur.len() - 4));
        assert(cur.take(cur.len() - 4) =~= v@.subrange(start as int, end - 4));
        end = end - 4;
    }
    proof {
        let cur = v@.subrange(start as int, end as int);
        if end - start >= 4 {
            assert(v@.skip(end - 4).take(4) =~= cur.skip(cur.len() - 4));
        }
        assert(!has_suffix(cur, git_suffix()));
    }
    if end == start {
        return Err(GitError::NoRepoName { url: owned(url) });
    }
    Ok(string_from_range(&v, start, end))
}

/// A repository name never holds a `/`, never ends in `.git`, holds no `:`
/// when the URL had no `/`, and is its own repository name unless it holds
/// a `:`.
pub proof fn law_repo_name_is_stable(url: Seq<char>)
    requires
        repo_name_spec(url).len() > 0,
    ensures
        !has_char(repo_name_spec(url), '/'),
        !has_suffix(repo_name_spec(url), git_suffix()),
        after_last(url, '/') == 0 ==> !has_char(repo_name_spec(url), ':'),
        !has_char(repo_name_spec(url), ':') ==> repo_name_spec(repo_name_spec(url))
            == repo_name_spec(url),
{
    let st = name_start(url);
    let base = url.skip(st);
    lemma_after_last(url, '/');
    lemma_after_last(url, ':');
    lemma_trim_git_suffix(base);
    let name = repo_name_spec(url);
    assert forall|i: int| 0 <= i < name.len() implies name[i] != '/' by {
        assert(name[i] == base[i]);
        assert(base[i] == url[st + i]);
    }
    if after_last(url, '/') == 0 {
        assert forall|i: int| 0 <= i < name.len() implies name[i] != ':' by {
            assert(name[i] == base[i]);
            assert(base[i] == url[st + i]);
        }
    }
    lemma_after_last_unique(name, '/', 0);
    if !has_char(name, ':') {
        lemma_after_last_unique(name, ':', 0);
    }
    assert(name.skip(0) =~= name);
}

// ---------------------------------------------------------------------------
// `git worktree list --porcelain`

/// A worktree entry as reported by `git worktree list --porcelain`.
#[derive(Debug)]
pub struct Worktree {
    pub path: String,
    pub head: String,
    pub branch: Option<String>,
    pub is_bare: bool,
    pub locked: bool,
}

/// The mathematical value of a `Worktree`.
pub struct WorktreeView {
    pub path: Seq<char>,
    pub head: Seq<char>,
    pub branch: Option<Seq<char>>,
    pub is_bare: bool,
    pub locked: bool,
}

/// The view of an optional string.
pub open spec fn opt_view(o: Option<String>) -> Option<Seq<char>> {
    match o {
        Some(s) => Some(s@),
        None => None,
    }
}

impl View for Worktree {
    type V = WorktreeView;

    open spec fn view(&self) -> WorktreeView {
        WorktreeView {
            path: self.path@,
            head: self.head@,
            branch: opt_view(self.branch),
            is_bare: self.is_bare,
            locked: self.locked,
        }
    }
}

/// The views of a sequence of worktrees.
pub open spec fn worktree_views(v: Seq<Worktree>) -> Seq<WorktreeView> {
    v.map_values(|w: Worktree| w@)
}

/// Where the porcelain parser stands between two lines: the fields of the
/// entry being read, and the entries already complete.
pub struct PorcelainState {
    pub path: Option<Seq<char>>,
    pub head: Seq<char>,
    pub branch: Option<Seq<char>>,
    pub is_bare: bool,
    pub locked: bool,
    pub done: Seq<WorktreeView>,
}

pub open spec fn porcelain_start() -> PorcelainState {
    PorcelainState {
        path: None,
        head: Seq::empty(),
        branch: None,
        is_bare: false,
        locked: false,
        done: Seq::empty(),
    }
}

/// `worktree `
pub open spec fn kw_worktree() -> Seq<char> {
    seq!['w', 'o', 'r', 'k', 't', 'r', 'e', 'e', ' ']
}

/// `HEAD `
pub open spec fn kw_head() -> Seq<char> {
    seq!['H', 'E', 'A', 'D', ' ']
}

/// `branch `
pub open spec fn kw_branch() -> Seq<char> {
    seq!['b', 'r', 'a', 'n', 'c', 'h', ' ']
}

/// `bare`
pub open spec fn kw_bare() -> Seq<char> {
    seq!['b', 'a', 'r', 'e']
}

/// `locked`
pub open spec fn kw_locked() -> Seq<char> {
    seq!['l', 'o', 'c', 'k', 'e', 'd']
}

/// `locked `
pub open spec fn kw_locked_sp() -> Seq<char> {
    seq!['l', 'o', 'c', 'k', 'e', 'd', ' ']
}

/// The entry the state holds, closed.
pub open spec fn porcelain_entry(st: PorcelainState, path: Seq<char>) -> WorktreeView {
    WorktreeView {
        path: path,
        head: st.head,
        branch: st.branch,
        is_bare: st.is_bare,
        locked: st.locked,
    }
}

/// One line of porcelain output: `worktree <path>`, `HEAD <sha>`,
/// `branch <ref>`, `bare` and `locked [reason]` fill in the current entry; a
/// blank line closes it (when it has a path) and starts the next; any other
/// line is ignored.
pub open spec fn porcelain_step(st: PorcelainState, line: Seq<char>) -> PorcelainState {
    if strip_prefix_spec(line, kw_worktree()) is Some {
        PorcelainState { path: Some(strip_prefix_spec(line, kw_worktree())->0), ..st }
    } else if strip_prefix_spec(line, kw_head()) is Some {
        PorcelainState { head: strip_prefix_spec(line, kw_head())->0, ..st }
    } else if strip_prefix_spec(line, kw_branch()) is Some {
        PorcelainState { branch: Some(strip_prefix_spec(line, kw_branch())->0), ..st }
    } else if line == kw_bare() {
        PorcelainState { is_bare: true, ..st }
    } else if line == kw_locked() || has_prefix(line, kw_locked_sp()) {
        PorcelainState { locked: true, ..st }
    } else if line.len() == 0 {
        match st.path {
            Some(p) => PorcelainState {
                path: None,
                head: Seq::empty(),
                branch: None,
                is_bare: false,
                locked: false,
                done: st.done.push(porcelain_entry(st, p)),
            },
            None => st,
        }
    } else {
        st
    }
}

/// The parser state after the given lines.
pub open spec fn porcelain_run(ls: Seq<Seq<char>>) -> PorcelainState
    decreases ls.len(),
{
    if ls.len() == 0 {
        porcelain_start()
    } else {
        porcelain_step(porcelain_run(ls.drop_last()), ls.last())
    }
}

/// The worktrees that porcelain output lists: every entry closed by a blank
/// line, then the last entry if it still has a path at the end.
pub open spec fn parse_worktree_list_spec(output: Seq<char>) -> Seq<WorktreeView> {
    let st = porcelain_run(lines_spec(output));
    match st.path {
        Some(p) => st.done.push(porcelain_entry(st, p)),
        None => st.done,
    }
}

/// The lines `git worktree list --porcelain` prints for one worktree: its
/// `worktree` line, a `HEAD` line when the commit is known, a `branch` line
/// or `detached`, `bare` and `locked` when they hold, then a blank line.
pub open spec fn record_lines(w: WorktreeView) -> Seq<Seq<char>> {
    seq![kw_worktree() + w.path] + (if w.head.len() > 0 {
        seq![kw_head() + w.head]
    } else {
        seq![]
    }) + (match w.branch {
        Some(b) => seq![kw_branch() + b],
        None => seq![kw_detached()],
    }) + (if w.is_bare {
        seq![kw_bare()]
    } else {
        seq![]
    }) + (if w.locked {
        seq![kw_locked()]
    } else {
        seq![]
    }) + seq![Seq::<char>::empty()]
}

/// `detached`
pub open spec fn kw_detached() -> Seq<char> {
    seq!['d', 'e', 't', 'a', 'c', 'h', 'e', 'd']
}

/// The porcelain lines for the worktrees `ws`, record after record.
pub open spec fn records_lines(ws: Seq<WorktreeView>) -> Seq<Seq<char>>
    decreases ws.len(),
{
    if ws.len() == 0 {
        seq![]
    } else {
        records_lines(ws.drop_last()) + record_lines(ws.last())
    }
}

/// The parser between records: nothing pending, `done` complete.
pub open spec fn porcelain_clean(done: Seq<WorktreeView>) -> PorcelainState {
    PorcelainState {
        path: None,
        head: Seq::empty(),
        branch: None,
        is_bare: false,
        locked: false,
        done: done,
    }
}

/// The parser state after the lines `ls`, starting from `st`.
pub open spec fn porcelain_from(st: PorcelainState, ls: Seq<Seq<char>>) -> PorcelainState
    decreases ls.len(),
{
    if ls.len() == 0 {
        st
    } else {
        porcelain_step(porcelain_from(st, ls.drop_last()), ls.last())
    }
}

proof fn lemma_porcelain_from_concat(st: PorcelainState, a: Seq<Seq<char>>, b: Seq<Seq<char>>)
    ensures
        porcelain_from(st, a + b) == porcelain_from(porcelain_from(st, a), b),
    decreases b.len(),
{
    if b.len() == 0 {
        assert(a + b =~= a);
    } else {
        lemma_porcelain_from_concat(st, a, b.drop_last());
        assert((a + b).drop_last() =~= a + b.drop_last());
        assert((a + b).last() == b.last());
    }
}

proof fn lemma_porcelain_run_from(ls: Seq<Seq<char>>)
    ensures
        porcelain_run(ls) == porcelain_from(porcelain_start(), ls),
    decreases ls.len(),
{
    if ls.len() > 0 {
        lemma_porcelain_run_from(ls.drop_last());
    }
}

proof fn lemma_porcelain_one(st: PorcelainState, l: Seq<char>)
    ensures
        porcelain_from(st, seq![l]) == porcelain_step(st, l),
{
    assert(seq![l].drop_last() =~= Seq::<Seq<char>>::empty());
    assert(porcelain_from(st, seq![l].drop_last()) == st);
    assert(seq![l].last() == l);
}

/// A line whose first character differs from a keyword's does not start
/// with it.
proof fn lemma_first_differs(line: Seq<char>, kw: Seq<char>)
    requires
        kw.len() > 0,
        line.len() > 0 ==> line[0] != kw[0],
    ensures
        !has_prefix(line, kw),
        strip_prefix_spec(line, kw) is None,
{
    if has_prefix(line, kw) {
        assert(line.take(kw.len() as int)[0] == line[0]);
    }
}

proof fn lemma_keyword_line(kw: Seq<char>, x: Seq<char>)
    ensures
        strip_prefix_spec(kw + x, kw) == Some(x),
{
    assert((kw + x).take(kw.len() as int) =~= kw);
    assert((kw + x).skip(kw.len() as int) =~= x);
}

/// Reading one record from a clean state adds its worktree and leaves the
/// state clean again.
proof fn lemma_porcelain_record(done: Seq<WorktreeView>, w: WorktreeView)
    ensures
        porcelain_from(porcelain_clean(done), record_lines(w)) == porcelain_clean(done.push(w)),
{
    let l0 = kw_worktree() + w.path;
    let lh: Seq<Seq<char>> = if w.head.len() > 0 {
        seq![kw_head() + w.head]
    } else {
        seq![]
    };
    let lb: Seq<Seq<char>> = match w.branch {
        Some(b) => seq![kw_branch() + b],
        None => seq![kw_detached()],
    };
    let lbare: Seq<Seq<char>> = if w.is_bare {
        seq![kw_bare()]
    } else {
        seq![]
    };
    let llock: Seq<Seq<char>> = if w.locked {
        seq![kw_locked()]
    } else {
        seq![]
    };
    let lend: Seq<Seq<char>> = seq![Seq::<char>::empty()];
    let c0 = porcelain_clean(done);
    // worktree line
    lemma_keyword_line(kw_worktree(), w.path);
    lemma_porcelain_one(c0, l0);
    let s1 = PorcelainState { path: Some(w.path), ..c0 };
    assert(porcelain_step(c0, l0) == s1);
    // HEAD line
    let s2 = PorcelainState { head: w.head, ..s1 };
    if w.head.len() > 0 {
        let l = kw_head() + w.head;
        lemma_first_differs(l, kw_worktree());
        lemma_keyword_line(kw_head(), w.head);
        lemma_porcelain_one(s1, l);
        assert(porcelain_from(s1, lh) == s2);
    } else {
        assert(w.head =~= Seq::<char>::empty());
        assert(porcelain_from(s1, lh) == s2);
    }
    // branch or detached line
    let s3 = PorcelainState { branch: w.branch, ..s2 };
    match w.branch {
        Some(b) => {
            let l = kw_branch() + b;
            lemma_first_differs(l, kw_worktree());
            lemma_first_differs(l, kw_head());
            lemma_keyword_line(kw_branch(), b);
            lemma_porcelain_one(s2, l);
        },
        None => {
            let l = kw_detached();
            lemma_first_differs(l, kw_worktree());
            lemma_first_differs(l, kw_head());
            lemma_first_differs(l, kw_branch());
            lemma_first_differs(l, kw_locked_sp());
            assert(l != kw_bare());
            assert(l != kw_locked());
            lemma_porcelain_one(s2, l);
        },
    }
    assert(porcelain_from(s2, lb) == s3);
    // bare line
    let s4 = PorcelainState { is_bare: w.is_bare, ..s3 };
    if w.is_bare {
        let l = kw_bare();
        lemma_first_differs(l, kw_worktree());
        lemma_first_differs(l, kw_head());
        assert(!has_prefix(l, kw_branch()));
        assert(strip_prefix_spec(l, kw_branch()) is None);
        lemma_porcelain_one(s3, l);
    }
    assert(porcelain_from(s3, lbare) == s4);
    // locked line
    let s5 = PorcelainState { locked: w.locked, ..s4 };
    if w.locked {
        let l = kw_locked();
        lemma_first_differs(l, kw_worktree());
        lemma_first_differs(l, kw_head());
        lemma_first_differs(l, kw_branch());
        assert(l != kw_bare());
        lemma_porcelain_one(s4, l);
    }
    assert(porcelain_from(s4, llock) == s5);
    // blank line
    let e = Seq::<char>::empty();
    lemma_first_differs(e, kw_worktree());
    lemma_first_differs(e, kw_head());
    lemma_first_differs(e, kw_branch());
    lemma_porcelain_one(s5, e);
    assert(porcelain_entry(s5, w.path) == w);
    assert(porcelain_from(s5, lend) == porcelain_clean(done.push(w)));
    // put the pieces together
    assert(record_lines(w) == seq![l0] + lh + lb + lbare + llock + lend);
    lemma_porcelain_from_concat(c0, seq![l0], lh);
    lemma_porcelain_from_concat(c0, seq![l0] + lh, lb);
    lemma_porcelain_from_concat(c0, seq![l0] + lh + lb, lbare);
    lemma_porcelain_from_concat(c0, seq![l0] + lh + lb + lbare, llock);
    lemma_porcelain_from_concat(c0, seq![l0] + lh + lb + lbare + llock, lend);
}

/// Law: porcelain output made of whole records parses back to exactly
/// those worktrees, one per record and in order: each record's fields come
/// from its own lines (an empty commit id when it has no `HEAD` line, no
/// branch when it is detached), and nothing carries over from one record to
/// the next.
pub proof fn law_porcelain_records_round_trip(ws: Seq<WorktreeView>, output: Seq<char>)
    requires
        lines_spec(output) == records_lines(ws),
    ensures
        parse_worktree_list_spec(output) == ws,
{
    lemma_records_parse(ws);
    lemma_porcelain_run_from(records_lines(ws));
}

/// A worktree whose path, commit id and branch hold no line break.
pub open spec fn plain_worktree(w: WorktreeView) -> bool {
    &&& !has_char(w.path, '\n') && !has_char(w.path, '\r')
    &&& !has_char(w.head, '\n') && !has_char(w.head, '\r')
    &&& match w.branch {
        Some(b) => !has_char(b, '\n') && !has_char(b, '\r'),
        None => true,
    }
}

proof fn lemma_no_char_concat(a: Seq<char>, b: Seq<char>, c: char)
    requires
        !has_char(a, c),
        !has_char(b, c),
    ensures
        !has_char(a + b, c),
{
    assert forall|i: int| 0 <= i < (a + b).len() implies (a + b)[i] != c by {
        if i < a.len() {
            assert((a + b)[i] == a[i]);
        } else {
            assert((a + b)[i] == b[i - a.len()]);
        }
    }
}

proof fn lemma_plain_keyword_line(kw: Seq<char>, x: Seq<char>)
    requires
        !has_char(kw, '\n') && !has_char(kw, '\r'),
        !has_char(x, '\n') && !has_char(x, '\r'),
    ensures
        plain_lines(seq![kw + x]),
{
    lemma_no_char_concat(kw, x, '\n');
    lemma_no_char_concat(kw, x, '\r');
}

proof fn lemma_plain_lines_concat(a: Seq<Seq<char>>, b: Seq<Seq<char>>)
    requires
        plain_lines(a),
        plain_lines(b),
    ensures
        plain_lines(a + b),
{
    assert forall|i: int| 0 <= i < (a + b).len() implies !has_char(#[trigger] (a + b)[i], '\n')
        && !has_char((a + b)[i], '\r') by {
        if i < a.len() {
            assert((a + b)[i] == a[i]);
        } else {
            assert((a + b)[i] == b[i - a.len()]);
        }
    }
}

proof fn lemma_plain_record(w: WorktreeView)
    requires
        plain_worktree(w),
    ensures
        plain_lines(record_lines(w)),
{
    let e = Seq::<char>::empty();
    lemma_plain_keyword_line(kw_worktree(), w.path);
    let lh: Seq<Seq<char>> = if w.head.len() > 0 {
        seq![kw_head() + w.head]
    } else {
        seq![]
    };
    if w.head.len() > 0 {
        lemma_plain_keyword_line(kw_head(), w.head);
    }
    let lb: Seq<Seq<char>> = match w.branch {
        Some(b) => seq![kw_branch() + b],
        None => seq![kw_detached()],
    };
    match w.branch {
        Some(b) => lemma_plain_keyword_line(kw_branch(), b),
        None => lemma_plain_keyword_line(kw_detached(), e),
    }
    assert(kw_detached() + e =~= kw_detached());
    let lbare: Seq<Seq<char>> = if w.is_bare {
        seq![kw_bare()]
    } else {
        seq![]
    };
    lemma_plain_keyword_line(kw_bare(), e);
    assert(kw_bare() + e =~= kw_bare());
    let llock: Seq<Seq<char>> = if w.locked {
        seq![kw_locked()]
    } else {
        seq![]
    };
    lemma_plain_keyword_line(kw_locked(), e);
    assert(kw_locked() + e =~= kw_locked());
    let lend: Seq<Seq<char>> = seq![e];
    assert(plain_lines(lend));
    let l0: Seq<Seq<char>> = seq![kw_worktree() + w.path];
    lemma_plain_lines_concat(l0, lh);
    lemma_plain_lines_concat(l0 + lh, lb);
    lemma_plain_lines_concat(l0 + lh + lb, lbare);
    lemma_plain_lines_concat(l0 + lh + lb + lbare, llock);
    lemma_plain_lines_concat(l0 + lh + lb + lbare + llock, lend);
    assert(record_lines(w) == l0 + lh + lb + lbare + llock + lend);
}

proof fn lemma_plain_records(ws: Seq<WorktreeView>)
    requires
        forall|i: int| 0 <= i < ws.len() ==> plain_worktree(#[trigger] ws[i]),
    ensures
        plain_lines(records_lines(ws)),
    decreases ws.len(),
{
    if ws.len() > 0 {
        assert forall|i: int| 0 <= i < ws.drop_last().len() implies plain_worktree(
            #[trigger] ws.drop_last()[i],
        ) by {
            assert(ws.drop_last()[i] == ws[i]);
        }
        lemma_plain_records(ws.drop_last());
        assert(plain_worktree(ws[ws.len() - 1]));
        lemma_plain_record(ws.last());
        lemma_plain_lines_concat(records_lines(ws.drop_last()), record_lines(ws.last()));
    }
}

/// Law, on text: the porcelain text of whole records (each line ended by
/// `\n`) for worktrees whose fields hold no line break parses back to
/// exactly those worktrees, one per record, in order, nothing carried over.
pub proof fn law_porcelain_text_round_trip(ws: Seq<WorktreeView>)
    requires
        forall|i: int| 0 <= i < ws.len() ==> plain_worktree(#[trigger] ws[i]),
    ensures
        parse_worktree_list_spec(join_lines(records_lines(ws))) == ws,
{
    lemma_plain_records(ws);
    lemma_lines_of_joined(records_lines(ws));
    law_porcelain_records_round_trip(ws, join_lines(records_lines(ws)));
}

proof fn lemma_records_parse(ws: Seq<WorktreeView>)
    ensures
        porcelain_from(porcelain_start(), records_lines(ws)) == porcelain_clean(ws),
    decreases ws.len(),
{
    if ws.len() == 0 {
        assert(ws =~= Seq::<WorktreeView>::empty());
        assert(porcelain_start() == porcelain_clean(ws));
    } else {
        lemma_records_parse(ws.drop_last());
        lemma_porcelain_from_concat(
            porcelain_start(),
            records_lines(ws.drop_last()),
            record_lines(ws.last()),
        );
        lemma_porcelain_record(ws.drop_last(), ws.last());
        assert(ws.drop_last().push(ws.last()) =~= ws);
    }
}

/// Whether `line` is one of the lines after a record's `worktree` line that
/// describe `w`: its `HEAD` line, its `branch` line or `detached`, `bare`,
/// `locked`.
pub open spec fn field_line_of(w: WorktreeView, line: Seq<char>) -> bool {
    ||| w.head.len() > 0 && line == kw_head() + w.head
    ||| (match w.branch {
        Some(b) => line == kw_branch() + b,
        None => line == kw_detached(),
    })
    ||| w.is_bare && line == kw_bare()
    ||| w.locked && line == kw_locked()
}

/// `body` describes `w` with its lines in any order: every line is one of
/// w's, and each of w's `HEAD`, `branch`, `bare` and `locked` lines occurs.
pub open spec fn describes(w: WorktreeView, body: Seq<Seq<char>>) -> bool {
    &&& forall|i: int| 0 <= i < body.len() ==> field_line_of(w, #[trigger] body[i])
    &&& w.head.len() > 0 ==> body.contains(kw_head() + w.head)
    &&& (match w.branch {
        Some(b) => body.contains(kw_branch() + b),
        None => true,
    })
    &&& w.is_bare ==> body.contains(kw_bare())
    &&& w.locked ==> body.contains(kw_locked())
}

/// A record for `w` whose lines between its `worktree` line and its blank
/// line are `body`.
pub open spec fn record_with(w: WorktreeView, body: Seq<Seq<char>>) -> Seq<Seq<char>> {
    seq![kw_worktree() + w.path] + body + seq![Seq::<char>::empty()]
}

/// Records for `ws`, in order, the i-th with the lines `bodies[i]`.
pub open spec fn records_with(ws: Seq<WorktreeView>, bodies: Seq<Seq<Seq<char>>>) -> Seq<
    Seq<char>,
>
    decreases ws.len(),
{
    if ws.len() == 0 {
        seq![]
    } else {
        records_with(ws.drop_last(), bodies.drop_last()) + record_with(ws.last(), bodies.last())
    }
}

/// The parser after the `worktree` line of `w` and the lines `pre`.
pub open spec fn reading_state(w: WorktreeView, pre: Seq<Seq<char>>, done: Seq<WorktreeView>) -> PorcelainState {
    PorcelainState {
        path: Some(w.path),
        head: if w.head.len() > 0 && pre.contains(kw_head() + w.head) {
            w.head
        } else {
            Seq::empty()
        },
        branch: match w.branch {
            Some(b) => if pre.contains(kw_branch() + b) {
                Some(b)
            } else {
                None
            },
            None => None,
        },
        is_bare: w.is_bare && pre.contains(kw_bare()),
        locked: w.locked && pre.contains(kw_locked()),
        done: done,
    }
}

proof fn lemma_push_contains(s: Seq<Seq<char>>, x: Seq<char>, y: Seq<char>)
    ensures
        s.push(x).contains(y) <==> (s.contains(y) || x == y),
{
    if s.contains(y) {
        let i = choose|i: int| 0 <= i < s.len() && s[i] == y;
        assert(s.push(x)[i] == y);
    }
    if x == y {
        assert(s.push(x)[s.len() as int] == y);
    }
    if s.push(x).contains(y) {
        let i = choose|i: int| 0 <= i < s.push(x).len() && s.push(x)[i] == y;
        if i < s.len() {
            assert(s[i] == y);
        }
    }
}

proof fn lemma_first_char(kw: Seq<char>, x: Seq<char>)
    requires
        kw.len() > 0,
    ensures
        (kw + x).len() > 0,
        (kw + x)[0] == kw[0],
{
}

/// One describing line moves the reading state along.
proof fn lemma_field_step(w: WorktreeView, pre: Seq<Seq<char>>, done: Seq<WorktreeView>, l: Seq<char>)
    requires
        field_line_of(w, l),
    ensures
        porcelain_step(reading_state(w, pre, done), l) == reading_state(w, pre.push(l), done),
{
    let st = reading_state(w, pre, done);
    let e = Seq::<char>::empty();
    lemma_push_contains(pre, l, kw_head() + w.head);
    lemma_push_contains(pre, l, kw_bare());
    lemma_push_contains(pre, l, kw_locked());
    lemma_first_char(kw_head(), w.head);
    lemma_first_char(kw_bare(), e);
    lemma_first_char(kw_locked(), e);
    assert(kw_bare() + e =~= kw_bare());
    assert(kw_locked() + e =~= kw_locked());
    match w.branch {
        Some(b) => {
            lemma_push_contains(pre, l, kw_branch() + b);
            lemma_first_char(kw_branch(), b);
        },
        None => {},
    }
    if w.head.len() > 0 && l == kw_head() + w.head {
        lemma_first_differs(l, kw_worktree());
        lemma_keyword_line(kw_head(), w.head);
        assert(l != kw_bare());
        assert(l != kw_locked());
        assert(porcelain_step(st, l) == reading_state(w, pre.push(l), done));
    } else if w.is_bare && l == kw_bare() {
        lemma_first_differs(l, kw_worktree());
        lemma_first_differs(l, kw_head());
        assert(!has_prefix(l, kw_branch()));
        assert(strip_prefix_spec(l, kw_branch()) is None);
        assert(l != kw_locked());
        assert(porcelain_step(st, l) == reading_state(w, pre.push(l), done));
    } else if w.locked && l == kw_locked() {
        lemma_first_differs(l, kw_worktree());
        lemma_first_differs(l, kw_head());
        lemma_first_differs(l, kw_branch());
        assert(l != kw_bare());
        assert(porcelain_step(st, l) == reading_state(w, pre.push(l), done));
    } else {
        match w.branch {
            Some(b) => {
                assert(l == kw_branch() + b);
                lemma_first_differs(l, kw_worktree());
                lemma_first_differs(l, kw_head());
                lemma_keyword_line(kw_branch(), b);
                assert(l != kw_bare());
                assert(l != kw_locked());
                assert(porcelain_step(st, l) == reading_state(w, pre.push(l), done));
            },
            None => {
                assert(l == kw_detached());
                lemma_first_differs(l, kw_worktree());
                lemma_first_differs(l, kw_head());
                lemma_first_differs(l, kw_branch());
                lemma_first_differs(l, kw_locked_sp());
                assert(l != kw_bare());
                assert(l != kw_locked());
                assert(porcelain_step(st, l) == reading_state(w, pre.push(l), done));
            },
        }
    }
}

/// Reading the first `n` lines of a describing body.
proof fn lemma_body_prefix(w: WorktreeView, body: Seq<Seq<char>>, done: Seq<WorktreeView>, n: int)
    requires
        forall|i: int| 0 <= i < body.len() ==> field_line_of(w, #[trigger] body[i]),
        0 <= n <= body.len(),
    ensures
        porcelain_from(reading_state(w, seq![], done), body.take(n)) == reading_state(
            w,
            body.take(n),
            done,
        ),
    decreases n,
{
    if n == 0 {
        assert(body.take(0) =~= Seq::<Seq<char>>::empty());
    } else {
        lemma_body_prefix(w, body, done, n - 1);
        assert(body.take(n).drop_last() =~= body.take(n - 1));
        assert(body.take(n).last() == body[n - 1]);
        lemma_field_step(w, body.take(n - 1), done, body[n - 1]);
        assert(body.take(n - 1).push(body[n - 1]) =~= body.take(n));
    }
}

/// Reading one record, its describing lines in any order, from a clean
/// state adds its worktree and leaves the state clean again.
proof fn lemma_record_any_order(done: Seq<WorktreeView>, w: WorktreeView, body: Seq<Seq<char>>)
    requires
        describes(w, body),
    ensures
        porcelain_from(porcelain_clean(done), record_with(w, body)) == porcelain_clean(done.push(w)),
{
    let c0 = porcelain_clean(done);
    let l0 = kw_worktree() + w.path;
    let e = Seq::<char>::empty();
    lemma_keyword_line(kw_worktree(), w.path);
    lemma_porcelain_one(c0, l0);
    let empty_pre: Seq<Seq<char>> = seq![];
    assert(porcelain_step(c0, l0) == reading_state(w, empty_pre, done));
    lemma_body_prefix(w, body, done, body.len() as int);
    assert(body.take(body.len() as int) =~= body);
    let s = reading_state(w, body, done);
    assert(porcelain_entry(s, w.path) == w) by {
        if w.head.len() == 0 {
            assert(w.head =~= e);
        }
    }
    lemma_first_differs(e, kw_worktree());
    lemma_first_differs(e, kw_head());
    lemma_first_differs(e, kw_branch());
    lemma_porcelain_one(s, e);
    assert(porcelain_step(s, e) == porcelain_clean(done.push(w)));
    assert(record_with(w, body) == seq![l0] + body + seq![e]);
    lemma_porcelain_from_concat(c0, seq![l0], body);
    lemma_porcelain_from_concat(c0, seq![l0] + body, seq![e]);
}

proof fn lemma_records_with_parse(ws: Seq<WorktreeView>, bodies: Seq<Seq<Seq<char>>>)
    requires
        bodies.len() == ws.len(),
        forall|i: int| 0 <= i < ws.len() ==> describes(#[trigger] ws[i], bodies[i]),
    ensures
        porcelain_from(porcelain_start(), records_with(ws, bodies)) == porcelain_clean(ws),
    decreases ws.len(),
{
    if ws.len() == 0 {
        assert(ws =~= Seq::<WorktreeView>::empty());
        assert(porcelain_start() == porcelain_clean(ws));
    } else {
        assert forall|i: int| 0 <= i < ws.drop_last().len() implies describes(
            #[trigger] ws.drop_last()[i],
            bodies.drop_last()[i],
        ) by {
            assert(ws.drop_last()[i] == ws[i]);
            assert(bodies.drop_last()[i] == bodies[i]);
        }
        lemma_records_with_parse(ws.drop_last(), bodies.drop_last());
        lemma_porcelain_from_concat(
            porcelain_start(),
            records_with(ws.drop_last(), bodies.drop_last()),
            record_with(ws.last(), bodies.last()),
        );
        assert(describes(ws[ws.len() - 1], bodies[ws.len() - 1]));
        lemma_record_any_order(ws.drop_last(), ws.last(), bodies.last());
        assert(ws.drop_last().push(ws.last()) =~= ws);
    }
}

/// Law: porcelain output made of whole records, each starting with its
/// `worktree` line and ending with a blank line, with the lines between in
/// any order, parses back to exactly those worktrees, one per record and in
/// order: each record's fields come from its own lines, and nothing carries
/// over from one record to the next.
pub proof fn law_porcelain_any_order_round_trip(
    ws: Seq<WorktreeView>,
    bodies: Seq<Seq<Seq<char>>>,
    output: Seq<char>,
)
    requires
        bodies.len() == ws.len(),
        forall|i: int| 0 <= i < ws.len() ==> describes(#[trigger] ws[i], bodies[i]),
        lines_spec(output) == records_with(ws, bodies),
    ensures
        parse_worktree_list_spec(output) == ws,
{
    lemma_records_with_parse(ws, bodies);
    lemma_porcelain_run_from(records_with(ws, bodies));
}

proof fn reveal_keywords()
    ensures
        "worktree "@ == kw_worktree(),
        "HEAD "@ == kw_head(),
        "branch "@ == kw_branch(),
        "bare"@ == kw_bare(),
        "locked"@ == kw_locked(),
        "locked "@ == kw_locked_sp(),
{
    reveal_strlit("worktree ");
    reveal_strlit("HEAD ");
    reveal_strlit("branch ");
    reveal_strlit("bare");
    reveal_strlit("locked");
    reveal_strlit("locked ");
    assert("worktree "@ =~= kw_worktree());
    assert("HEAD "@ =~= kw_head());
    assert("branch "@ =~= kw_branch());
    assert("bare"@ =~= kw_bare());
    assert("locked"@ =~= kw_locked());
    assert("locked "@ =~= kw_locked_sp());
}

/// Parse the output of `git worktree list --porcelain`.
pub fn parse_worktree_list(output: &str) -> (r: Result<Vec<Worktree>, GitError>)
    ensures
        r matches Ok(v) && worktree_views(v@) == parse_worktree_list_spec(output@),
{
    let ls = lines(output);
    let mut worktrees: Vec<Worktree> = Vec::new();
    let mut path: Option<String> = None;
    let mut head = String::new();
    let mut branch: Option<String> = None;
    let mut is_bare = false;
    let mut locked = false;
    let mut i: usize = 0;
    assert(views(ls@).take(0) =~= Seq::<Seq<char>>::empty());
    assert(worktree_views(worktrees@) =~= Seq::<WorktreeView>::empty());
    while i < ls.len()
        invariant
            views(ls@) == lines_spec(output@),
            i <= ls.len(),
            porcelain_run(views(ls@).take(i as int)) == (PorcelainState {
                path: opt_view(path),
                head: head@,
                branch: opt_view(branch),
                is_bare: is_bare,
                locked: locked,
                done: worktree_views(worktrees@),
            }),
        decreases ls.len() - i,
    {
        proof {
            reveal_keywords();
        }
        let line = ls[i].as_str();
        let ghost st = porcelain_run(views(ls@).take(i as int));
        assert(views(ls@).take(i + 1).drop_last() =~= views(ls@).take(i as int));
        assert(views(ls@).take(i + 1).last() == line@);
        if let Some(p) = strip_prefix(line, "worktree ") {
            path = Some(p);
        } else if let Some(h) = strip_prefix(line, "HEAD ") {
            head = h;
        } else if let Some(b) = strip_prefix(line, "branch ") {
            branch = Some(b);
        } else if str_eq(line, "bare") {
            is_bare = true;
        } else if str_eq(line, "locked") || starts_with(line, "locked ") {
            locked = true;
        } else if line.is_empty() {
            if path.is_some() {
                let p = path.take().unwrap();
                let h = head;
                head = String::new();
                let b = branch.take();
                let w = Worktree { path: p, head: h, branch: b, is_bare: is_bare, locked: locked };
                let ghost old_done = worktree_views(worktrees@);
                worktrees.push(w);
                assert(worktree_views(worktrees@) =~= old_done.push(w@));
                is_bare = false;
                locked = false;
            }
        }
        assert(porcelain_run(views(ls@).take(i + 1)) == porcelain_step(st, line@));
        assert(porcelain_step(st, line@) == (PorcelainState {
            path: opt_view(path),
            head: head@,
            branch: opt_view(branch),
            is_bare: is_bare,
            locked: locked,
            done: worktree_views(worktrees@),
        }));
        i = i + 1;
    }
    assert(views(ls@).take(ls.len() as int) =~= views(ls@));
    if path.is_some() {
        let p = path.take().unwrap();
        let w = Worktree { path: p, head: head, branch: branch, is_bare: is_bare, locked: locked };
        let ghost old_done = worktree_views(worktrees@);
        worktrees.push(w);
        assert(worktree_views(worktrees@) =~= old_done.push(w@));
    }
    Ok(worktrees)
}

// ---------------------------------------------------------------------------
// Branch and remote listings

/// `/HEAD`
pub open spec fn slash_head() -> Seq<char> {
    seq!['/', 'H', 'E', 'A', 'D']
}

/// Whether a trimmed listing line names an entry: it is not blank, and for
/// remote-tracking listings it has a `/` and does not end in `/HEAD` (the
/// symbolic `<remote>/HEAD` ref, which git may also shorten to a bare
/// `<remote>`).
pub open spec fn keep_listed(t: Seq<char>, remote: bool) -> bool {
    t.len() > 0 && (!remote || (has_char(t, '/') && !has_suffix(t, slash_head())))
}

/// The entries of a listing: each line trimmed, kept when `keep_listed`.
pub open spec fn listed_spec(ls: Seq<Seq<char>>, remote: bool) -> Seq<Seq<char>>
    decreases ls.len(),
{
    if ls.len() == 0 {
        seq![]
    } else {
        let rest = listed_spec(ls.drop_last(), remote);
        let t = trim_spec(ls.last());
        if keep_listed(t, remote) {
            rest.push(t)
        } else {
            rest
        }
    }
}

/// Parse a one-name-per-line listing (`git remote`, `git branch
/// --format=%(refname:short)`, or with `remote` set, `git branch -r ...`).
pub fn parse_listing(stdout: &str, remote: bool) -> (r: Vec<String>)
    ensures
        views(r@) == listed_spec(lines_spec(stdout@), remote),
{
    let ls = lines(stdout);
    let mut out: Vec<String> = Vec::new();
    let mut i: usize = 0;
    assert(views(ls@).take(0) =~= Seq::<Seq<char>>::empty());
    assert(views(out@) =~= Seq::<Seq<char>>::empty());
    while i < ls.len()
        invariant
            views(ls@) == lines_spec(stdout@),
            i <= ls.len(),
            views(out@) == listed_spec(views(ls@).take(i as int), remote),
        decreases ls.len() - i,
    {
        proof {
            reveal_strlit("/HEAD");
            assert("/HEAD"@ =~= slash_head());
        }
        assert(views(ls@).take(i + 1).drop_last() =~= views(ls@).take(i as int));
        let t = trim(ls[i].as_str());
        let keep = !t.as_str().is_empty() && (!remote || (crate::text::contains_char(t.as_str(), '/')
            && !ends_with(t.as_str(), "/HEAD")));
        if keep {
            let ghost before = views(out@);
            out.push(t);
            assert(views(out@) =~= before.push(t@));
        }
        i = i + 1;
    }
    assert(views(ls@).take(ls.len() as int) =~= views(ls@));
    out
}

/// The remote names that `git remote` prints.
pub fn parse_remotes(stdout: &str) -> (r: Vec<String>)
    ensures
        views(r@) == listed_spec(lines_spec(stdout@), false),
{
    parse_listing(stdout, false)
}

/// The local branch names that `git branch --format=%(refname:short)` prints.
pub fn parse_local_branches(stdout: &str) -> (r: Vec<String>)
    ensures
        views(r@) == listed_spec(lines_spec(stdout@), false),
{
    parse_listing(stdout, false)
}

/// The remote-tracking refs that `git branch -r --format=%(refname:short)`
/// prints, without the symbolic `HEAD` refs.
pub fn parse_remote_branches(stdout: &str) -> (r: Vec<String>)
    ensures
        views(r@) == listed_spec(lines_spec(stdout@), true),
{
    parse_listing(stdout, true)
}

// ---------------------------------------------------------------------------
// Cloning

/// `refs/heads/`
pub open spec fn refs_heads() -> Seq<char> {
    seq!['r', 'e', 'f', 's', '/', 'h', 'e', 'a', 'd', 's', '/']
}

/// The ref names in `heads` (one per line) other than `keep`.
pub open spec fn refs_except_spec(ls: Seq<Seq<char>>, keep: Seq<char>) -> Seq<Seq<char>>
    decreases ls.len(),
{
    if ls.len() == 0 {
        seq![]
    } else {
        let rest = refs_except_spec(ls.drop_last(), keep);
        if ls.last() == keep {
            rest
        } else {
            rest.push(ls.last())
        }
    }
}

/// After a bare clone, the local heads to delete: every line of the
/// `for-each-ref` listing `heads` except `refs/heads/<default_branch>`.
pub fn heads_to_delete(heads: &str, default_branch: &str) -> (r: Vec<String>)
    ensures
        views(r@) == refs_except_spec(lines_spec(heads@), refs_heads() + default_branch@),
{
    proof {
        reveal_strlit("refs/heads/");
        assert("refs/heads/"@ =~= refs_heads());
    }
    let keep = crate::text::concat2("refs/heads/", default_branch);
    let ls = lines(heads);
    let mut out: Vec<String> = Vec::new();
    let mut i: usize = 0;
    assert(views(ls@).take(0) =~= Seq::<Seq<char>>::empty());
    assert(views(out@) =~= Seq::<Seq<char>>::empty());
    while i < ls.len()
        invariant
            views(ls@) == lines_spec(heads@),
            i <= ls.len(),
            keep@ == refs_heads() + default_branch@,
            views(out@) == refs_except_spec(views(ls@).take(i as int), keep@),
        decreases ls.len() - i,
    {
        assert(views(ls@).take(i + 1).drop_last() =~= views(ls@).take(i as int));
        if !str_eq(ls[i].as_str(), keep.as_str()) {
            let ghost before = views(out@);
            out.push(owned(ls[i].as_str()));
            assert(views(out@) =~= before.push(ls@[i as int]@));
        }
        i = i + 1;
    }
    assert(views(ls@).take(ls.len() as int) =~= views(ls@));
    out
}

/// The result of a successful clone.
pub struct CloneResult {
    pub path: String,
    pub name: String,
}

// ---------------------------------------------------------------------------
// Adding worktrees

/// How to materialize a branch when adding a worktree.
#[derive(Debug)]
pub enum WorktreeSource {
    /// The branch already exists locally; just check it out into the worktree.
    ExistingLocal,
    /// Create the branch from a remote-tracking ref, with upstream set.
    TrackingRemote { upstream: String },
    /// Create a brand-new branch from HEAD.
    NewFromHead,
}

/// The arguments of `git worktree add` for `branch` at `worktree_dir`.
pub open spec fn worktree_add_args_spec(
    worktree_dir: Seq<char>,
    branch: Seq<char>,
    source: WorktreeSourceView,
) -> Seq<Seq<char>> {
    let head = seq![seq!['w', 'o', 'r', 'k', 't', 'r', 'e', 'e'], seq!['a', 'd', 'd']];
    match source {
        WorktreeSourceView::ExistingLocal => head + seq![worktree_dir, branch],
        WorktreeSourceView::TrackingRemote(upstream) => head + seq![
            seq!['-', 'b'],
            branch,
            worktree_dir,
            upstream,
        ],
        WorktreeSourceView::NewFromHead => head + seq![seq!['-', 'b'], branch, worktree_dir],
    }
}

/// The mathematical value of a `WorktreeSource`.
pub enum WorktreeSourceView {
    ExistingLocal,
    TrackingRemote(Seq<char>),
    NewFromHead,
}

impl View for WorktreeSource {
    type V = WorktreeSourceView;

    open spec fn view(&self) -> WorktreeSourceView {
        match self {
            WorktreeSource::ExistingLocal => WorktreeSourceView::ExistingLocal,
            WorktreeSource::TrackingRemote { upstream } => WorktreeSourceView::TrackingRemote(
                upstream@,
            ),
            WorktreeSource::NewFromHead => WorktreeSourceView::NewFromHead,
        }
    }
}

/// The arguments to give `git` to add a worktree for `branch` at
/// `worktree_dir`: an existing local branch is checked out as it is; a
/// remote-tracking source creates the branch from its upstream (`-b`), and a
/// new branch is created from HEAD (`-b`).
pub fn worktree_add_args(worktree_dir: &str, branch: &str, source: &WorktreeSource) -> (r: Vec<
    String,
>)
    ensures
        views(r@) == worktree_add_args_spec(worktree_dir@, branch@, source@),
{
    proof {
        reveal_strlit("worktree");
        reveal_strlit("add");
        reveal_strlit("-b");
        assert("worktree"@ =~= seq!['w', 'o', 'r', 'k', 't', 'r', 'e', 'e']);
        assert("add"@ =~= seq!['a', 'd', 'd']);
        assert("-b"@ =~= seq!['-', 'b']);
    }
    let mut r: Vec<String> = Vec::new();
    r.push(owned("worktree"));
    r.push(owned("add"));
    match source {
        WorktreeSource::ExistingLocal => {
            r.push(owned(worktree_dir));
            r.push(owned(branch));
        },
        WorktreeSource::TrackingRemote { upstream } => {
            r.push(owned("-b"));
            r.push(owned(branch));
            r.push(owned(worktree_dir));
            r.push(owned(upstream.as_str()));
        },
        WorktreeSource::NewFromHead => {
            r.push(owned("-b"));
            r.push(owned(branch));
            r.push(owned(worktree_dir));
        },
    }
    assert(views(r@) =~= worktree_add_args_spec(worktree_dir@, branch@, source@));
    r
}


// ---------------------------------------------------------------------------
// Creating repositories

/// The `.git` file that makes a container resolve to its `.bare` data.
pub const GITDIR_FILE_CONTENTS: &'static str = "gitdir: ./.bare\n";

/// The branch a new repository starts on.
pub const DEFAULT_BRANCH: &'static str = "master";

/// A repository must not be created over an existing path.
pub fn check_destination(container: &str, exists: bool) -> (r: Result<(), GitError>)
    ensures
        r is Ok <==> !exists,
        r matches Err(GitError::DestinationExists { path }) ==> path@ == container@,
{
    if exists {
        Err(GitError::DestinationExists { path: owned(container) })
    } else {
        Ok(())
    }
}

/// Where a clone of `url` goes: the container named after the repository,
/// under `parent_dir`.
pub fn clone_destination(url: &str, parent_dir: &str) -> (r: Result<CloneResult, GitError>)
    ensures
        repo_name_spec(url@).len() > 0 ==> (r matches Ok(c) && c.name@ == repo_name_spec(url@)
            && c.path@ == join_spec(parent_dir@, repo_name_spec(url@))),
        repo_name_spec(url@).len() == 0 ==> (r matches Err(GitError::NoRepoName { url: u })
            && u@ == url@),
{
    let name = repo_name_from_url(url)?;
    let path = join_path(parent_dir, name.as_str());
    Ok(CloneResult { path, name })
}

/// The arguments of the bare clone of `url` into `bare`.
pub fn clone_args(url: &str, bare: &str) -> (r: Vec<String>)
    ensures
        views(r@) == seq!["clone"@, "--bare"@, url@, bare@],
{
    let r = vec![owned("clone"), owned("--bare"), owned(url), owned(bare)];
    assert(views(r@) =~= seq!["clone"@, "--bare"@, url@, bare@]);
    r
}

/// The arguments that map the origin's branches to `origin/*`
/// remote-tracking refs (a bare clone maps them onto local heads).
pub fn tracking_refspec_args() -> (r: Vec<String>)
    ensures
        views(r@) == seq!["config"@, "remote.origin.fetch"@, "+refs/heads/*:refs/remotes/origin/*"@],
{
    let r = vec![
        owned("config"),
        owned("remote.origin.fetch"),
        owned("+refs/heads/*:refs/remotes/origin/*"),
    ];
    assert(views(r@) =~= seq![
        "config"@,
        "remote.origin.fetch"@,
        "+refs/heads/*:refs/remotes/origin/*"@,
    ]);
    r
}

/// The two `git config` calls that make `origin` the upstream of the
/// default branch: `branch.<b>.remote = origin` and
/// `branch.<b>.merge = refs/heads/<b>`.
pub fn upstream_config_args(default_branch: &str) -> (r: (Vec<String>, Vec<String>))
    ensures
        views(r.0@) == seq!["config"@, "branch."@ + default_branch@ + ".remote"@, "origin"@],
        views(r.1@) == seq![
            "config"@,
            "branch."@ + default_branch@ + ".merge"@,
            "refs/heads/"@ + default_branch@,
        ],
{
    let a = vec![owned("config"), concat3("branch.", default_branch, ".remote"), owned("origin")];
    let b = vec![
        owned("config"),
        concat3("branch.", default_branch, ".merge"),
        crate::text::concat2("refs/heads/", default_branch),
    ];
    assert(views(a@) =~= seq!["config"@, "branch."@ + default_branch@ + ".remote"@, "origin"@]);
    assert(views(b@) =~= seq![
        "config"@,
        "branch."@ + default_branch@ + ".merge"@,
        "refs/heads/"@ + default_branch@,
    ]);
    (a, b)
}

// ---------------------------------------------------------------------------
// Merged and gone branches

/// The branch that merged worktrees are measured against: its local name
/// and the ref to compare with (`origin/<name>`, or the local name).
#[derive(Debug)]
pub struct BaseBranch {
    pub name: String,
    pub git_ref: String,
}

/// The base branch named by `git symbolic-ref refs/remotes/origin/HEAD`
/// output: the ref without `refs/remotes/`, and the name after its first
/// `/`.
pub open spec fn base_from_origin_spec(output: Seq<char>) -> Option<(Seq<char>, Seq<char>)> {
    match strip_prefix_spec(trim_spec(output), "refs/remotes/"@) {
        None => None,
        Some(git_ref) => match crate::text::split_once_spec(git_ref, '/') {
            None => None,
            Some((_remote, name)) => Some((name, git_ref)),
        },
    }
}

/// Read the base branch from the origin's `HEAD`; `None` when the output
/// names no remote-tracking branch.
pub fn base_from_origin_head(output: &str) -> (r: Option<BaseBranch>)
    ensures
        match r {
            Some(b) => base_from_origin_spec(output@) == Some((b.name@, b.git_ref@)),
            None => base_from_origin_spec(output@) is None,
        },
{
    let t = trim(output);
    let git_ref = match strip_prefix(t.as_str(), "refs/remotes/") {
        Some(g) => g,
        None => return None,
    };
    match crate::text::split_once(git_ref.as_str(), '/') {
        Some((_remote, name)) => Some(BaseBranch { name, git_ref }),
        None => None,
    }
}

/// The base branch when there is no origin: the current local branch
/// (`git symbolic-ref --short HEAD`), as both name and ref.
pub fn base_from_head(output: &str) -> (r: BaseBranch)
    ensures
        r.name@ == trim_spec(output@),
        r.git_ref@ == trim_spec(output@),
{
    BaseBranch { name: trim(output), git_ref: trim(output) }
}

/// The arguments that ask whether `branch` is an ancestor of `base_ref`.
pub fn merge_base_args(branch: &str, base_ref: &str) -> (r: Vec<String>)
    ensures
        views(r@) == seq!["merge-base"@, "--is-ancestor"@, "refs/heads/"@ + branch@, base_ref@],
{
    let r = vec![
        owned("merge-base"),
        owned("--is-ancestor"),
        crate::text::concat2("refs/heads/", branch),
        owned(base_ref),
    ];
    assert(views(r@) =~= seq![
        "merge-base"@,
        "--is-ancestor"@,
        "refs/heads/"@ + branch@,
        base_ref@,
    ]);
    r
}

/// What `git merge-base --is-ancestor` answers by its exit code: 0 merged,
/// 1 not merged, anything else (or a signal) a failure.
pub fn merged_from_exit(code: Option<i32>) -> (r: Result<bool, GitError>)
    ensures
        code == Some(0i32) ==> r == Ok::<bool, GitError>(true),
        code == Some(1i32) ==> r == Ok::<bool, GitError>(false),
        code != Some(0i32) && code != Some(1i32) ==> r is Err,
{
    match code {
        Some(0) => Ok(true),
        Some(1) => Ok(false),
        _ => Err(GitError::Command { message: owned("git merge-base --is-ancestor failed") }),
    }
}

/// The arguments that print the upstream tracking state of `branch`.
pub fn upstream_track_args(branch: &str) -> (r: Vec<String>)
    ensures
        views(r@) == seq!["for-each-ref"@, "--format=%(upstream:track)"@, "refs/heads/"@ + branch@],
{
    let r = vec![
        owned("for-each-ref"),
        owned("--format=%(upstream:track)"),
        crate::text::concat2("refs/heads/", branch),
    ];
    assert(views(r@) =~= seq![
        "for-each-ref"@,
        "--format=%(upstream:track)"@,
        "refs/heads/"@ + branch@,
    ]);
    r
}

/// Whether the tracking state says the upstream branch was deleted.
pub fn upstream_gone(output: &str) -> (r: bool)
    ensures
        r == (trim_spec(output@) == "[gone]"@),
{
    let t = trim(output);
    str_eq(t.as_str(), "[gone]")
}

/// The arguments that delete `branch`, forcibly (`-D`) or not (`-d`).
pub fn delete_branch_args(branch: &str, force: bool) -> (r: Vec<String>)
    ensures
        views(r@) == seq!["branch"@, if force {
            "-D"@
        } else {
            "-d"@
        }, branch@],
{
    let flag = if force {
        owned("-D")
    } else {
        owned("-d")
    };
    let r = vec![owned("branch"), flag, owned(branch)];
    assert(views(r@) =~= seq!["branch"@, if force {
        "-D"@
    } else {
        "-d"@
    }, branch@]);
    r
}

// ---------------------------------------------------------------------------
// Worktree directories

/// Whether some listed worktree is at `target`.
pub fn registered_at(worktrees: &Vec<Worktree>, target: &str) -> (r: bool)
    ensures
        r == exists|i: int|
            0 <= i < worktrees@.len() && (#[trigger] worktree_views(worktrees@)[i]).path
                == target@,
{
    let ghost wv = worktree_views(worktrees@);
    let mut i: usize = 0;
    while i < worktrees.len()
        invariant
            i <= worktrees.len(),
            wv == worktree_views(worktrees@),
            forall|k: int| 0 <= k < i ==> (#[trigger] wv[k]).path != target@,
        decreases worktrees.len() - i,
    {
        if str_eq(worktrees[i].path.as_str(), target) {
            assert(wv[i as int].path == target@);
            return true;
        }
        i = i + 1;
    }
    false
}

/// Whether a `.git` file's contents point into this repository's worktree
/// administration (`<git_dir>/worktrees/…`), which marks a checkout of this
/// repository even when git lost its records.
pub open spec fn linked_gitdir_spec(contents: Seq<char>, git_dir: Seq<char>) -> bool {
    match strip_prefix_spec(trim_spec(contents), "gitdir: "@) {
        None => false,
        Some(pointer) => has_prefix(pointer, join_spec(git_dir, "worktrees"@).push('/')),
    }
}

/// Whether the `.git` file `contents` link a checkout to `git_dir`.
pub fn is_linked_gitdir(contents: &str, git_dir: &str) -> (r: bool)
    ensures
        r == linked_gitdir_spec(contents@, git_dir@),
{
    let t = trim(contents);
    match strip_prefix(t.as_str(), "gitdir: ") {
        None => false,
        Some(pointer) => {
            let admin = join_path(git_dir, "worktrees");
            let prefix = crate::text::concat2(admin.as_str(), "/");
            proof {
                reveal_strlit("/");
                assert(prefix@ =~= join_spec(git_dir@, "worktrees"@).push('/'));
            }
            starts_with(pointer.as_str(), prefix.as_str())
        },
    }
}

/// Whether `dir` is, or contains, one of the `registered` worktree paths.
pub open spec fn holds_worktree(dir: Seq<char>, registered: Seq<Seq<char>>) -> bool {
    exists|i: int|
        0 <= i < registered.len() && (#[trigger] registered[i] == dir || has_prefix(
            registered[i],
            dir.push('/'),
        ))
}

/// The orphan directories among the entries `children` of the worktree
/// base `base`: visible entries (not starting with `.`) that neither are
/// nor contain a registered worktree.
pub open spec fn orphan_dirs_spec(
    base: Seq<char>,
    children: Seq<Seq<char>>,
    registered: Seq<Seq<char>>,
) -> Seq<Seq<char>>
    decreases children.len(),
{
    if children.len() == 0 {
        seq![]
    } else {
        let rest = orphan_dirs_spec(base, children.drop_last(), registered);
        let c = children.last();
        let dir = join_spec(base, c);
        if (c.len() > 0 && c[0] == '.') || holds_worktree(dir, registered) {
            rest
        } else {
            rest.push(dir)
        }
    }
}

/// Whether `dir` is or contains one of `registered`.
fn holds_any(dir: &str, registered: &Vec<String>) -> (r: bool)
    ensures
        r == holds_worktree(dir@, views(registered@)),
{
    let inner = crate::text::concat2(dir, "/");
    proof {
        reveal_strlit("/");
        assert(inner@ =~= dir@.push('/'));
    }
    let ghost rv = views(registered@);
    let mut i: usize = 0;
    while i < registered.len()
        invariant
            i <= registered.len(),
            rv == views(registered@),
            inner@ == dir@.push('/'),
            forall|k: int|
                0 <= k < i ==> !(#[trigger] rv[k] == dir@ || has_prefix(rv[k], dir@.push('/'))),
        decreases registered.len() - i,
    {
        if str_eq(registered[i].as_str(), dir) || starts_with(
            registered[i].as_str(),
            inner.as_str(),
        ) {
            assert(rv[i as int] == registered@[i as int]@);
            return true;
        }
        i = i + 1;
    }
    false
}

/// The directories under `base` that no registered worktree accounts for,
/// given the names of its entries that are directories.
pub fn orphan_dirs(base: &str, children: &Vec<String>, registered: &Vec<String>) -> (r: Vec<String>)
    ensures
        views(r@) == orphan_dirs_spec(base@, views(children@), views(registered@)),
{
    let ghost cv = views(children@);
    let mut r: Vec<String> = Vec::new();
    let mut i: usize = 0;
    while i < children.len()
        invariant
            i <= children.len(),
            cv == views(children@),
            views(r@) == orphan_dirs_spec(base@, cv.take(i as int), views(registered@)),
        decreases children.len() - i,
    {
        let ghost before = views(r@);
        assert(cv.take(i + 1).drop_last() =~= cv.take(i as int));
        let c = children[i].as_str();
        let hidden = starts_with(c, ".");
        proof {
            reveal_strlit(".");
            assert("."@ =~= seq!['.']);
            assert(hidden == has_prefix(c@, "."@));
            assert(hidden == (c@.len() > 0 && c@[0] == '.')) by {
                if c@.len() > 0 {
                    assert(c@.take(1) =~= seq![c@[0]]);
                    if c@[0] == '.' {
                        assert(c@.take(1) =~= "."@);
                    } else {
                        assert(c@.take(1)[0] != "."@[0]);
                    }
                }
            }
        }
        let dir = join_path(base, c);
        if !hidden && !holds_any(dir.as_str(), registered) {
            r.push(dir);
            assert(views(r@) =~= before.push(join_spec(base@, cv[i as int])));
        }
        i = i + 1;
    }
    assert(cv.take(i as int) =~= cv);
    r
}

/// Law: an orphan directory never is, nor contains, a registered worktree,
/// so removing it never touches a live checkout.
pub proof fn law_orphans_hold_no_worktree(
    base: Seq<char>,
    children: Seq<Seq<char>>,
    registered: Seq<Seq<char>>,
    k: int,
)
    requires
        0 <= k < orphan_dirs_spec(base, children, registered).len(),
    ensures
        !holds_worktree(orphan_dirs_spec(base, children, registered)[k], registered),
    decreases children.len(),
{
    if children.len() > 0 {
        let rest = orphan_dirs_spec(base, children.drop_last(), registered);
        if k < rest.len() {
            law_orphans_hold_no_worktree(base, children.drop_last(), registered, k);
        }
    }
}

} // verus!
