//! User configuration: the shell, the multiplexer backend, and the named
//! directories that repositories are cloned into.
use vstd::prelude::*;
use crate::text::{
    concat2, concat3, contains_substr, has_infix, join_path, join_spec, lemma_seq_lt_total,
    lemma_seq_lt_trans, owned, seq_lt, str_eq, str_less,
};
use directories::ProjectDirs;

verus! {

broadcast use vstd::string::group_string_axioms;

// ---------------------------------------------------------------------------
// Errors

/// Why a configuration value could not be produced.
#[derive(Debug, Clone, PartialEq, Eq)]
pub enum ConfigError {
    /// The platform reports no home directory to place grove's files in.
    NoProjectDirs,
    /// A shell name other than zsh, bash or fish (lowercased).
    UnsupportedShell { name: String },
    /// No directories are configured; `config_path` is the file to edit.
    NoDirectories { config_path: String },
    /// No directory of that name is configured.
    UnknownDirectory { name: String },
}

impl ConfigError {
    /// The human-readable text of the error.
    pub fn message(&self) -> (r: String)
        ensures
            r@ == match self {
                ConfigError::NoProjectDirs => "Could not determine project directories"@,
                ConfigError::UnsupportedShell { name } => "Unsupported shell: "@ + name@
                    + ". Use zsh, bash, or fish."@,
                ConfigError::NoDirectories { config_path } =>
                    "No directories configured. Add directories to your config file:\n  "@
                    + config_path@,
                ConfigError::UnknownDirectory { name } => "Directory '"@ + name@
                    + "' not found in config"@,
            },
    {
        match self {
            ConfigError::NoProjectDirs => owned("Could not determine project directories"),
            ConfigError::UnsupportedShell { name } => concat3(
                "Unsupported shell: ",
                name.as_str(),
                ". Use zsh, bash, or fish.",
            ),
            ConfigError::NoDirectories { config_path } => concat2(
                "No directories configured. Add directories to your config file:\n  ",
                config_path.as_str(),
            ),
            ConfigError::UnknownDirectory { name } => concat3(
                "Directory '",
                name.as_str(),
                "' not found in config",
            ),
        }
    }
}

// ---------------------------------------------------------------------------
// Shell

/// The user's interactive shell.
#[derive(Debug, Clone, Copy, PartialEq, Eq, Structural)]
pub enum Shell {
    Zsh,
    Bash,
    Fish,
}

/// The shell named by `$SHELL`: fish if the value mentions `fish`, else bash
/// if it mentions `bash`, else (also when unset) zsh.
pub open spec fn detect_spec(shell_var: Option<Seq<char>>) -> Shell {
    match shell_var {
        Some(s) => if has_infix(s, "fish"@) {
            Shell::Fish
        } else if has_infix(s, "bash"@) {
            Shell::Bash
        } else {
            Shell::Zsh
        },
        None => Shell::Zsh,
    }
}

/// The lowercase name of a shell.
pub open spec fn shell_name(s: Shell) -> Seq<char> {
    match s {
        Shell::Zsh => "zsh"@,
        Shell::Bash => "bash"@,
        Shell::Fish => "fish"@,
    }
}

/// Name for what `str::to_lowercase` returns: the Unicode lowercase mapping
/// of the characters of `s`.
pub uninterp spec fn lowercase(s: Seq<char>) -> Seq<char>;

/// ASCII lowercasing: `A`..`Z` become `a`..`z`, every other character stays.
pub open spec fn ascii_lower(s: Seq<char>) -> Seq<char> {
    s.map_values(|c: char| if 'A' <= c <= 'Z' { ((c as u32) + 32) as char } else { c })
}

/// `str::to_lowercase`. Its result is named `lowercase`; on ASCII text it
/// is the ASCII lowercasing (Unicode lowercases `A`..`Z` to `a`..`z` and
/// leaves the other ASCII characters as they are).
#[verifier::external_body]
fn to_lowercase(s: &str) -> (r: String)
    ensures
        r@ == lowercase(s@),
        vstd::utf8::is_ascii_chars(s@) ==> r@ == ascii_lower(s@),
{
    s.to_lowercase()
}

/// The shell named by `lowered`, a name already lowercased: `zsh`, `bash`
/// or `fish`, else the error that names it.
pub fn shell_from_lowered(lowered: &str) -> (r: Result<Shell, ConfigError>)
    ensures
        match shell_from_lower(lowered@) {
            Some(sh) => r == Ok::<Shell, ConfigError>(sh),
            None => r matches Err(ConfigError::UnsupportedShell { name }) && name@ == lowered@,
        },
{
    if str_eq(lowered, "zsh") {
        Ok(Shell::Zsh)
    } else if str_eq(lowered, "bash") {
        Ok(Shell::Bash)
    } else if str_eq(lowered, "fish") {
        Ok(Shell::Fish)
    } else {
        Err(ConfigError::UnsupportedShell { name: owned(lowered) })
    }
}

/// The shell whose name is `lowered` (already lowercased), if any.
pub open spec fn shell_from_lower(lowered: Seq<char>) -> Option<Shell> {
    if lowered == "zsh"@ {
        Some(Shell::Zsh)
    } else if lowered == "bash"@ {
        Some(Shell::Bash)
    } else if lowered == "fish"@ {
        Some(Shell::Fish)
    } else {
        None
    }
}

impl Shell {
    /// The shell named by the value of `$SHELL` (`None` when it is unset).
    pub fn detect(shell_var: Option<&str>) -> (r: Shell)
        ensures
            r == detect_spec(
                match shell_var {
                    Some(s) => Some(s@),
                    None => None,
                },
            ),
    {
        match shell_var {
            Some(s) => {
                if contains_substr(s, "fish") {
                    Shell::Fish
                } else if contains_substr(s, "bash") {
                    Shell::Bash
                } else {
                    Shell::Zsh
                }
            },
            None => Shell::Zsh,
        }
    }

    /// The shell's lowercase name (`zsh`, `bash` or `fish`).
    pub fn name(&self) -> (r: &'static str)
        ensures
            r@ == shell_name(*self),
    {
        match self {
            Shell::Zsh => "zsh",
            Shell::Bash => "bash",
            Shell::Fish => "fish",
        }
    }

    /// Parse a shell name, ignoring case.
    pub fn parse(s: &str) -> (r: Result<Shell, ConfigError>)
        ensures
            match shell_from_lower(lowercase(s@)) {
                Some(sh) => r == Ok::<Shell, ConfigError>(sh),
                None => r matches Err(ConfigError::UnsupportedShell { name }) && name@ == lowercase(
                    s@,
                ),
            },
            vstd::utf8::is_ascii_chars(s@) ==> match shell_from_lower(ascii_lower(s@)) {
                Some(sh) => r == Ok::<Shell, ConfigError>(sh),
                None => r matches Err(ConfigError::UnsupportedShell { name }) && name@ == ascii_lower(
                    s@,
                ),
            },
    {
        let lowered = to_lowercase(s);
        shell_from_lowered(lowered.as_str())
    }
}

impl std::str::FromStr for Shell {
    type Err = ConfigError;

    fn from_str(s: &str) -> (r: Result<Shell, ConfigError>)
        ensures
            match shell_from_lower(lowercase(s@)) {
                Some(sh) => r == Ok::<Shell, ConfigError>(sh),
                None => r matches Err(ConfigError::UnsupportedShell { name }) && name@ == lowercase(
                    s@,
                ),
            },
            vstd::utf8::is_ascii_chars(s@) ==> match shell_from_lower(ascii_lower(s@)) {
                Some(sh) => r == Ok::<Shell, ConfigError>(sh),
                None => r matches Err(ConfigError::UnsupportedShell { name }) && name@ == ascii_lower(
                    s@,
                ),
            },
    {
        Shell::parse(s)
    }
}

// ---------------------------------------------------------------------------
// Multiplexer backend

/// Which terminal multiplexer grove should use.
#[derive(Debug, Clone, Copy, PartialEq, Eq, Structural)]
pub enum MultiplexerBackend {
    /// Use zellij.
    Zellij,
    /// Use tmux.
    Tmux,
    /// Prefer the multiplexer grove is running inside of, then whichever
    /// binary is installed (zellij wins a tie).
    Auto,
}

impl Default for MultiplexerBackend {
    fn default() -> (r: MultiplexerBackend)
        ensures
            r == MultiplexerBackend::Auto,
    {
        MultiplexerBackend::Auto
    }
}

/// A concrete multiplexer (no `Auto`).
#[derive(Debug, Clone, Copy, PartialEq, Eq, Structural)]
pub enum ResolvedBackend {
    Zellij,
    Tmux,
}

/// What the environment tells about the available multiplexers: whether
/// `$ZELLIJ` and `$TMUX` are set, and whether each binary is on `$PATH`.
#[derive(Debug, Clone, Copy, PartialEq, Eq, Structural)]
pub struct BackendEnv {
    pub inside_zellij: bool,
    pub inside_tmux: bool,
    pub zellij_on_path: bool,
    pub tmux_on_path: bool,
}

/// The backend that `b` resolves to in the environment `env`.
pub open spec fn resolve_spec(b: MultiplexerBackend, env: BackendEnv) -> Option<ResolvedBackend> {
    match b {
        MultiplexerBackend::Zellij => Some(ResolvedBackend::Zellij),
        MultiplexerBackend::Tmux => Some(ResolvedBackend::Tmux),
        MultiplexerBackend::Auto => if env.inside_zellij {
            Some(ResolvedBackend::Zellij)
        } else if env.inside_tmux {
            Some(ResolvedBackend::Tmux)
        } else if env.zellij_on_path {
            Some(ResolvedBackend::Zellij)
        } else if env.tmux_on_path {
            Some(ResolvedBackend::Tmux)
        } else {
            None
        },
    }
}

/// The lowercase name of a backend setting.
pub open spec fn backend_name(b: MultiplexerBackend) -> Seq<char> {
    match b {
        MultiplexerBackend::Zellij => "zellij"@,
        MultiplexerBackend::Tmux => "tmux"@,
        MultiplexerBackend::Auto => "auto"@,
    }
}

impl MultiplexerBackend {
    /// Resolve `Auto` to a concrete backend; `None` when `Auto` finds neither
    /// multiplexer.
    pub fn resolve(&self, env: &BackendEnv) -> (r: Option<ResolvedBackend>)
        ensures
            r == resolve_spec(*self, *env),
    {
        match self {
            MultiplexerBackend::Zellij => Some(ResolvedBackend::Zellij),
            MultiplexerBackend::Tmux => Some(ResolvedBackend::Tmux),
            MultiplexerBackend::Auto => {
                if env.inside_zellij {
                    Some(ResolvedBackend::Zellij)
                } else if env.inside_tmux {
                    Some(ResolvedBackend::Tmux)
                } else if env.zellij_on_path {
                    Some(ResolvedBackend::Zellij)
                } else if env.tmux_on_path {
                    Some(ResolvedBackend::Tmux)
                } else {
                    None
                }
            },
        }
    }

    /// The setting's lowercase name (`zellij`, `tmux` or `auto`).
    pub fn name(&self) -> (r: &'static str)
        ensures
            r@ == backend_name(*self),
    {
        match self {
            MultiplexerBackend::Zellij => "zellij",
            MultiplexerBackend::Tmux => "tmux",
            MultiplexerBackend::Auto => "auto",
        }
    }
}

/// Law: a backend chosen explicitly is used whatever the environment, and
/// `Auto` always prefers the multiplexer grove is running inside of.
pub proof fn law_resolve_prefers_explicit_then_running(b: MultiplexerBackend, env: BackendEnv)
    ensures
        b == MultiplexerBackend::Zellij ==> resolve_spec(b, env) == Some(ResolvedBackend::Zellij),
        b == MultiplexerBackend::Tmux ==> resolve_spec(b, env) == Some(ResolvedBackend::Tmux),
        b == MultiplexerBackend::Auto && env.inside_zellij ==> resolve_spec(b, env) == Some(
            ResolvedBackend::Zellij,
        ),
        b == MultiplexerBackend::Auto && !env.inside_zellij && env.inside_tmux ==> resolve_spec(
            b,
            env,
        ) == Some(ResolvedBackend::Tmux),
        resolve_spec(b, env) is None <==> (b == MultiplexerBackend::Auto && !env.inside_zellij
            && !env.inside_tmux && !env.zellij_on_path && !env.tmux_on_path),
{
}

// ---------------------------------------------------------------------------
// Directories

/// A named directory that repositories live under.
#[derive(Debug, Clone)]
pub struct DirectoryEntry {
    pub path: String,
}

/// Name and path of each configured directory.
pub open spec fn entries_of(v: Seq<(String, DirectoryEntry)>) -> Seq<(Seq<char>, Seq<char>)> {
    v.map_values(|e: (String, DirectoryEntry)| (e.0@, e.1.path@))
}

/// Names in strictly increasing order (so each occurs once).
pub open spec fn sorted_keys(es: Seq<(Seq<char>, Seq<char>)>) -> bool {
    forall|i: int, j: int| 0 <= i < j < es.len() ==> seq_lt(#[trigger] es[i].0, #[trigger] es[j].0)
}

/// Whether some entry is named `k`.
pub open spec fn has_key(es: Seq<(Seq<char>, Seq<char>)>, k: Seq<char>) -> bool {
    exists|i: int| 0 <= i < es.len() && (#[trigger] es[i]).0 == k
}

/// The position of an entry named `k`.
pub open spec fn key_index(es: Seq<(Seq<char>, Seq<char>)>, k: Seq<char>) -> int {
    choose|i: int| 0 <= i < es.len() && (#[trigger] es[i]).0 == k
}

/// The entries as a map from name to path.
pub open spec fn dir_map(es: Seq<(Seq<char>, Seq<char>)>) -> Map<Seq<char>, Seq<char>> {
    Map::new(|k: Seq<char>| has_key(es, k), |k: Seq<char>| es[key_index(es, k)].1)
}

/// In sorted entries, the map holds each entry's path under its name.
pub proof fn lemma_dir_map_at(es: Seq<(Seq<char>, Seq<char>)>, i: int)
    requires
        sorted_keys(es),
        0 <= i < es.len(),
    ensures
        dir_map(es).contains_key(es[i].0),
        dir_map(es)[es[i].0] == es[i].1,
{
    let k = es[i].0;
    assert(has_key(es, k));
    let j = key_index(es, k);
    assert(0 <= j < es.len() && es[j].0 == k);
    if j != i {
        lemma_seq_lt_total(k, k);
        if j < i {
            assert(seq_lt(es[j].0, es[i].0));
        } else {
            assert(seq_lt(es[i].0, es[j].0));
        }
    }
}

/// The configuration file's contents.
#[derive(Debug)]
pub struct Config {
    pub shell: Shell,
    pub multiplexer: MultiplexerBackend,
    pub directories: Vec<(String, DirectoryEntry)>,
}

/// What a directory check found at a configured path.
#[derive(Debug, Clone, Copy, PartialEq, Eq, Structural)]
pub enum PathKind {
    /// Nothing exists at the path.
    Missing,
    /// A directory.
    Directory,
    /// Something that is not a directory.
    Other,
}

/// A non-fatal problem with a configured directory.
#[derive(Debug, Clone)]
pub enum ConfigWarning {
    DirectoryMissing { name: String, path: String },
    NotADirectory { name: String, path: String },
}

/// A `ConfigWarning` as plain values.
pub enum ConfigWarningView {
    DirectoryMissing { name: Seq<char>, path: Seq<char> },
    NotADirectory { name: Seq<char>, path: Seq<char> },
}

impl View for ConfigWarning {
    type V = ConfigWarningView;

    open spec fn view(&self) -> ConfigWarningView {
        match self {
            ConfigWarning::DirectoryMissing { name, path } => ConfigWarningView::DirectoryMissing {
                name: name@,
                path: path@,
            },
            ConfigWarning::NotADirectory { name, path } => ConfigWarningView::NotADirectory {
                name: name@,
                path: path@,
            },
        }
    }
}

/// The warnings for entries `es` whose paths were found to be `kinds`, in
/// entry order: a missing path, then a path that is not a directory.
pub open spec fn warnings_spec(es: Seq<(Seq<char>, Seq<char>)>, kinds: Seq<PathKind>) -> Seq<
    ConfigWarningView,
>
    decreases es.len(),
{
    if es.len() == 0 || kinds.len() == 0 {
        seq![]
    } else {
        let rest = warnings_spec(es.drop_last(), kinds.drop_last());
        let e = es.last();
        match kinds.last() {
            PathKind::Missing => rest.push(
                ConfigWarningView::DirectoryMissing { name: e.0, path: e.1 },
            ),
            PathKind::Other => rest.push(ConfigWarningView::NotADirectory { name: e.0, path: e.1 }),
            PathKind::Directory => rest,
        }
    }
}

impl ConfigWarning {
    /// The human-readable text of the warning.
    pub fn message(&self) -> (r: String)
        ensures
            r@ == match self {
                ConfigWarning::DirectoryMissing { name, path } => "configured directory '"@ + name@
                    + "' does not exist: "@ + path@,
                ConfigWarning::NotADirectory { name, path } => "configured directory '"@ + name@
                    + "' is not a directory: "@ + path@,
            },
    {
        match self {
            ConfigWarning::DirectoryMissing { name, path } => {
                let head = concat3("configured directory '", name.as_str(), "' does not exist: ");
                concat2(head.as_str(), path.as_str())
            },
            ConfigWarning::NotADirectory { name, path } => {
                let head = concat3(
                    "configured directory '",
                    name.as_str(),
                    "' is not a directory: ",
                );
                concat2(head.as_str(), path.as_str())
            },
        }
    }
}

impl Config {
    /// The configured directories, as (name, path) in name order.
    pub open spec fn entries(&self) -> Seq<(Seq<char>, Seq<char>)> {
        entries_of(self.directories@)
    }

    /// The configured directories as a map from name to path.
    pub open spec fn dirs(&self) -> Map<Seq<char>, Seq<char>> {
        dir_map(self.entries())
    }

    /// Well-formed: directory names strictly increasing, as in a `BTreeMap`.
    pub open spec fn wf(&self) -> bool {
        sorted_keys(self.entries())
    }

    /// A configuration with the given shell and backend and no directories.
    pub fn new(shell: Shell, multiplexer: MultiplexerBackend) -> (r: Config)
        ensures
            r.wf(),
            r.shell == shell,
            r.multiplexer == multiplexer,
            r.entries() == Seq::<(Seq<char>, Seq<char>)>::empty(),
    {
        let r = Config { shell, multiplexer, directories: Vec::new() };
        assert(r.entries() =~= Seq::<(Seq<char>, Seq<char>)>::empty());
        r
    }

    /// How many directories are configured.
    pub fn dir_count(&self) -> (r: usize)
        ensures
            r == self.entries().len(),
    {
        self.directories.len()
    }

    /// Add the directory `name` at `path`, replacing the path of an existing
    /// entry of that name.
    pub fn insert_directory(&mut self, name: &str, path: &str)
        requires
            old(self).wf(),
        ensures
            final(self).wf(),
            final(self).shell == old(self).shell,
            final(self).multiplexer == old(self).multiplexer,
            final(self).dirs() == old(self).dirs().insert(name@, path@),
    {
        let ghost es = self.entries();
        let mut i: usize = 0;
        while i < self.directories.len() && str_less(self.directories[i].0.as_str(), name)
            invariant
                self.entries() == es,
                i <= es.len(),
                forall|k: int| 0 <= k < i ==> seq_lt(#[trigger] es[k].0, name@),
            decreases es.len() - i,
        {
            i = i + 1;
        }
        let ghost old_map = dir_map(es);
        if i < self.directories.len() && str_eq(self.directories[i].0.as_str(), name) {
            let key = self.directories[i].0.clone();
            self.directories.set(i, (key, DirectoryEntry { path: owned(path) }));
            proof {
                let ns = self.entries();
                assert(ns =~= es.update(i as int, (name@, path@)));
                assert(sorted_keys(ns)) by {
                    assert forall|a: int, b: int| 0 <= a < b < ns.len() implies seq_lt(
                        #[trigger] ns[a].0,
                        #[trigger] ns[b].0,
                    ) by {
                        assert(seq_lt(es[a].0, es[b].0));
                    }
                }
                assert(dir_map(ns) =~= old_map.insert(name@, path@)) by {
                    assert forall|k: Seq<char>| #[trigger] dir_map(ns).contains_key(k) <==> old_map.insert(
                        name@,
                        path@,
                    ).contains_key(k) by {
                        if has_key(ns, k) {
                            let j = choose|j: int| 0 <= j < ns.len() && (#[trigger] ns[j]).0 == k;
                            assert(es[j].0 == k);
                        }
                        if has_key(es, k) {
                            let j = choose|j: int| 0 <= j < es.len() && (#[trigger] es[j]).0 == k;
                            assert(ns[j].0 == k);
                        }
                        if k == name@ {
                            assert(ns[i as int].0 == k);
                        }
                    }
                    assert forall|k: Seq<char>| #[trigger] dir_map(ns).contains_key(k) implies dir_map(
                        ns,
                    )[k] == old_map.insert(name@, path@)[k] by {
                        let j = choose|j: int| 0 <= j < ns.len() && (#[trigger] ns[j]).0 == k;
                        lemma_dir_map_at(ns, j);
                        if j != i {
                            lemma_dir_map_at(es, j);
                            lemma_seq_lt_total(k, k);
                            if j < i {
                                assert(seq_lt(ns[j].0, ns[i as int].0));
                            } else {
                                assert(seq_lt(ns[i as int].0, ns[j].0));
                            }
                        }
                    }
                }
            }
        } else {
            self.directories.insert(i, (owned(name), DirectoryEntry { path: owned(path) }));
            proof {
                let ns = self.entries();
                assert(ns =~= es.insert(i as int, (name@, path@)));
                if i < es.len() {
                    lemma_seq_lt_total(es[i as int].0, name@);
                }
                assert(sorted_keys(ns)) by {
                    assert forall|a: int, b: int| 0 <= a < b < ns.len() implies seq_lt(
                        #[trigger] ns[a].0,
                        #[trigger] ns[b].0,
                    ) by {
                        if b < i {
                            assert(seq_lt(es[a].0, es[b].0));
                        } else if b == i {
                            assert(seq_lt(es[a].0, name@));
                        } else if a == i {
                            if b - 1 > i {
                                assert(seq_lt(es[i as int].0, es[b - 1].0));
                                lemma_seq_lt_trans(name@, es[i as int].0, es[b - 1].0);
                            }
                        } else if a < i {
                            assert(seq_lt(es[a].0, name@));
                            assert(seq_lt(name@, es[i as int].0));
                            lemma_seq_lt_trans(es[a].0, name@, es[i as int].0);
                            if b - 1 > i {
                                lemma_seq_lt_trans(es[a].0, es[i as int].0, es[b - 1].0);
                            }
                        } else {
                            assert(seq_lt(es[a - 1].0, es[b - 1].0));
                        }
                    }
                }
                assert(dir_map(ns) =~= old_map.insert(name@, path@)) by {
                    assert forall|k: Seq<char>| #[trigger] dir_map(ns).contains_key(k) <==> old_map.insert(
                        name@,
                        path@,
                    ).contains_key(k) by {
                        if has_key(ns, k) {
                            let j = choose|j: int| 0 <= j < ns.len() && (#[trigger] ns[j]).0 == k;
                            if j < i {
                                assert(es[j].0 == k);
                            } else if j > i {
                                assert(es[j - 1].0 == k);
                            }
                        }
                        if has_key(es, k) {
                            let j = choose|j: int| 0 <= j < es.len() && (#[trigger] es[j]).0 == k;
                            if j < i {
                                assert(ns[j].0 == k);
                            } else {
                                assert(ns[j + 1].0 == k);
                            }
                        }
                        if k == name@ {
                            assert(ns[i as int].0 == k);
                        }
                    }
                    assert forall|k: Seq<char>| #[trigger] dir_map(ns).contains_key(k) implies dir_map(
                        ns,
                    )[k] == old_map.insert(name@, path@)[k] by {
                        let j = choose|j: int| 0 <= j < ns.len() && (#[trigger] ns[j]).0 == k;
                        lemma_dir_map_at(ns, j);
                        if j < i {
                            lemma_dir_map_at(es, j);
                            if k == name@ {
                                lemma_seq_lt_total(k, k);
                            }
                        } else if j > i {
                            lemma_dir_map_at(es, j - 1);
                            if k == name@ {
                                lemma_seq_lt_total(k, k);
                                assert(seq_lt(ns[i as int].0, ns[j].0));
                            }
                        }
                    }
                }
            }
        }
    }

    /// The configured directories as (name, path) pairs, in name order.
    pub fn directory_entries(&self) -> (r: Vec<(String, String)>)
        ensures
            r@.len() == self.entries().len(),
            forall|i: int|
                0 <= i < r@.len() ==> (#[trigger] r@[i]).0@ == self.entries()[i].0 && r@[i].1@
                    == self.entries()[i].1,
    {
        let mut r: Vec<(String, String)> = Vec::new();
        let mut i: usize = 0;
        while i < self.directories.len()
            invariant
                i <= self.directories.len(),
                r@.len() == i,
                forall|k: int|
                    0 <= k < i ==> (#[trigger] r@[k]).0@ == self.entries()[k].0 && r@[k].1@
                        == self.entries()[k].1,
            decreases self.directories.len() - i,
        {
            let name = owned(self.directories[i].0.as_str());
            let path = owned(self.directories[i].1.path.as_str());
            r.push((name, path));
            i = i + 1;
        }
        r
    }

    /// The configured directory names, in order.
    pub fn dir_names(&self) -> (r: Vec<String>)
        ensures
            r@.len() == self.entries().len(),
            forall|i: int| 0 <= i < r@.len() ==> (#[trigger] r@[i])@ == self.entries()[i].0,
    {
        let mut r: Vec<String> = Vec::new();
        let mut i: usize = 0;
        while i < self.directories.len()
            invariant
                i <= self.directories.len(),
                r@.len() == i,
                forall|k: int| 0 <= k < i ==> (#[trigger] r@[k])@ == self.entries()[k].0,
            decreases self.directories.len() - i,
        {
            r.push(owned(self.directories[i].0.as_str()));
            i = i + 1;
        }
        r
    }

    /// The path of the directory named `name`.
    pub fn resolve_dir(&self, name: &str) -> (r: Option<String>)
        requires
            self.wf(),
        ensures
            match r {
                Some(p) => self.dirs().contains_key(name@) && p@ == self.dirs()[name@],
                None => !self.dirs().contains_key(name@),
            },
    {
        let mut i: usize = 0;
        while i < self.directories.len()
            invariant
                self.wf(),
                i <= self.directories.len(),
                forall|k: int| 0 <= k < i ==> (#[trigger] self.entries()[k]).0 != name@,
            decreases self.directories.len() - i,
        {
            if str_eq(self.directories[i].0.as_str(), name) {
                proof {
                    lemma_dir_map_at(self.entries(), i as int);
                }
                return Some(owned(self.directories[i].1.path.as_str()));
            }
            i = i + 1;
        }
        proof {
            if has_key(self.entries(), name@) {
                let j = choose|j: int|
                    0 <= j < self.entries().len() && (#[trigger] self.entries()[j]).0 == name@;
                assert(self.entries()[j].0 != name@);
            }
        }
        None
    }

    /// The directory to use without asking: the only one, when exactly one
    /// is configured.
    pub fn only_directory(&self) -> (r: Option<String>)
        ensures
            match r {
                Some(n) => self.entries().len() == 1 && n@ == self.entries()[0].0,
                None => self.entries().len() != 1,
            },
    {
        if self.directories.len() == 1 {
            Some(owned(self.directories[0].0.as_str()))
        } else {
            None
        }
    }

    /// The path of the directory `name`, or the error that names it.
    pub fn directory_path(&self, name: &str) -> (r: Result<String, ConfigError>)
        requires
            self.wf(),
        ensures
            match r {
                Ok(p) => self.dirs().contains_key(name@) && p@ == self.dirs()[name@],
                Err(e) => !self.dirs().contains_key(name@) && (e matches ConfigError::UnknownDirectory {
                    name: n,
                } && n@ == name@),
            },
    {
        match self.resolve_dir(name) {
            Some(p) => Ok(p),
            None => Err(ConfigError::UnknownDirectory { name: owned(name) }),
        }
    }

    /// Cloning or creating a repository needs a configured directory.
    pub fn require_directories(&self, config_path: &str) -> (r: Result<(), ConfigError>)
        ensures
            r is Ok <==> self.entries().len() > 0,
            r matches Err(e) ==> (e matches ConfigError::NoDirectories { config_path: p }
                && p@ == config_path@),
    {
        if self.directories.len() == 0 {
            Err(ConfigError::NoDirectories { config_path: owned(config_path) })
        } else {
            Ok(())
        }
    }

    /// The warnings for directories that are missing or are not directories,
    /// given what a check found at each configured path (in name order).
    pub fn validate(&self, kinds: &Vec<PathKind>) -> (r: Vec<ConfigWarning>)
        requires
            kinds.len() == self.entries().len(),
        ensures
            r@.map_values(|w: ConfigWarning| w@) == warnings_spec(self.entries(), kinds@),
    {
        let mut r: Vec<ConfigWarning> = Vec::new();
        let mut i: usize = 0;
        while i < self.directories.len()
            invariant
                kinds.len() == self.directories.len(),
                i <= self.directories.len(),
                r@.map_values(|w: ConfigWarning| w@) == warnings_spec(
                    self.entries().take(i as int),
                    kinds@.take(i as int),
                ),
            decreases self.directories.len() - i,
        {
            let ghost before = r@.map_values(|w: ConfigWarning| w@);
            let name = owned(self.directories[i].0.as_str());
            let path = owned(self.directories[i].1.path.as_str());
            assert(self.entries().take(i + 1).drop_last() =~= self.entries().take(i as int));
            assert(kinds@.take(i + 1).drop_last() =~= kinds@.take(i as int));
            match kinds[i] {
                PathKind::Missing => {
                    r.push(ConfigWarning::DirectoryMissing { name, path });
                    assert(r@.map_values(|w: ConfigWarning| w@) =~= before.push(
                        ConfigWarningView::DirectoryMissing {
                            name: self.entries()[i as int].0,
                            path: self.entries()[i as int].1,
                        },
                    ));
                },
                PathKind::Other => {
                    r.push(ConfigWarning::NotADirectory { name, path });
                    assert(r@.map_values(|w: ConfigWarning| w@) =~= before.push(
                        ConfigWarningView::NotADirectory {
                            name: self.entries()[i as int].0,
                            path: self.entries()[i as int].1,
                        },
                    ));
                },
                PathKind::Directory => {},
            }
            i = i + 1;
        }
        assert(self.entries().take(i as int) =~= self.entries());
        assert(kinds@.take(i as int) =~= kinds@);
        r
    }

    /// The path of the configuration file: `config.toml` in grove's
    /// configuration directory.
    pub fn path() -> (r: Result<String, ConfigError>)
        ensures
            match r {
                Ok(p) => exists|d: Seq<char>| p@ == config_path_spec(d),
                Err(e) => e == ConfigError::NoProjectDirs,
            },
    {
        let dirs = project_dirs()?;
        let dir = project_config_dir(&dirs);
        Ok(config_path_in(dir.as_str()))
    }
}

/// Law: after `insert_directory(name, path)` (whose contract relates the
/// configurations before and after), the directory `name` resolves to
/// `path` and every other directory resolves as before.
pub proof fn law_read_after_insert(
    before: Config,
    after: Config,
    name: Seq<char>,
    path: Seq<char>,
    other: Seq<char>,
)
    requires
        before.wf(),
        after.dirs() == before.dirs().insert(name, path),
        other != name,
    ensures
        after.dirs().contains_key(name),
        after.dirs()[name] == path,
        after.dirs().contains_key(other) == before.dirs().contains_key(other),
        before.dirs().contains_key(other) ==> after.dirs()[other] == before.dirs()[other],
{
}

/// Law: directory names are listed in strictly increasing order, so none is
/// listed twice, and each names a configured directory.
pub proof fn law_dir_names_sorted_unique(c: Config, i: int, j: int)
    requires
        c.wf(),
        0 <= i < j < c.entries().len(),
    ensures
        seq_lt(c.entries()[i].0, c.entries()[j].0),
        c.entries()[i].0 != c.entries()[j].0,
        c.dirs().contains_key(c.entries()[i].0),
        c.dirs()[c.entries()[i].0] == c.entries()[i].1,
{
    lemma_seq_lt_total(c.entries()[i].0, c.entries()[i].0);
    lemma_dir_map_at(c.entries(), i);
}

// ---------------------------------------------------------------------------
// Files

/// The configuration file inside the configuration directory `dir`.
pub open spec fn config_path_spec(dir: Seq<char>) -> Seq<char> {
    join_spec(dir, "config.toml"@)
}

/// `config.toml` inside the configuration directory `config_dir`.
pub fn config_path_in(config_dir: &str) -> (r: String)
    ensures
        r@ == config_path_spec(config_dir@),
{
    join_path(config_dir, "config.toml")
}

/// The database file inside grove's data directory.
pub fn db_path(data_dir: &str) -> (r: String)
    ensures
        r@ == join_spec(data_dir@, "grove.db"@),
{
    join_path(data_dir, "grove.db")
}

/// `directories::ProjectDirs`, carried through opaquely.
#[verifier::external_type_specification]
#[verifier::external_body]
pub struct ExProjectDirs(ProjectDirs);

/// `ProjectDirs::from`: grove's per-user directories as the platform names
/// them. What comes back depends on the environment (the home directory and
/// the XDG variables), so nothing is stated of it.
#[verifier::external_body]
fn project_dirs_from(qualifier: &str, organization: &str, application: &str) -> Option<ProjectDirs> {
    ProjectDirs::from(qualifier, organization, application)
}

/// `ProjectDirs::config_dir`, as a string. Nothing is stated of the path:
/// it was computed from the environment when the `ProjectDirs` was made.
/// Paths are strings throughout this library, so a directory whose name is
/// not UTF-8 comes back with its invalid bytes replaced.
#[verifier::external_body]
fn project_config_dir(dirs: &ProjectDirs) -> String {
    dirs.config_dir().to_string_lossy().into_owned()
}

/// `ProjectDirs::data_dir`, as a string. Nothing is stated of the path:
/// it was computed from the environment when the `ProjectDirs` was made.
/// Paths are strings throughout this library, so a directory whose name is
/// not UTF-8 comes back with its invalid bytes replaced.
#[verifier::external_body]
fn project_data_dir(dirs: &ProjectDirs) -> String {
    dirs.data_dir().to_string_lossy().into_owned()
}

/// The names grove's directories are looked up under: no qualifier, no
/// organisation, application `grove`.
pub fn project_names() -> (r: (&'static str, &'static str, &'static str))
    ensures
        r.0@ == ""@,
        r.1@ == ""@,
        r.2@ == "grove"@,
{
    ("", "", "grove")
}

/// The platform's directories for grove, looked up under `project_names`.
pub fn project_dirs() -> (r: Result<ProjectDirs, ConfigError>)
    ensures
        r is Err ==> r == Err::<ProjectDirs, ConfigError>(ConfigError::NoProjectDirs),
{
    let (qualifier, organization, application) = project_names();
    match project_dirs_from(qualifier, organization, application) {
        Some(d) => Ok(d),
        None => Err(ConfigError::NoProjectDirs),
    }
}

/// grove's configuration directory.
pub fn config_dir() -> (r: Result<String, ConfigError>)
    ensures
        r is Err ==> r == Err::<String, ConfigError>(ConfigError::NoProjectDirs),
{
    let dirs = project_dirs()?;
    Ok(project_config_dir(&dirs))
}

/// grove's data directory (which the caller creates before use).
pub fn data_dir() -> (r: Result<String, ConfigError>)
    ensures
        r is Err ==> r == Err::<String, ConfigError>(ConfigError::NoProjectDirs),
{
    let dirs = project_dirs()?;
    Ok(project_data_dir(&dirs))
}

} // verus!
