//! Session names, the terminal-multiplexer interface, and layout templates.
use vstd::prelude::*;
use vstd::utf8::*;

use crate::text::{
    chars_of, concat2, concat3, has_char, join_path, join_spec, owned, push_char, replace_char,
    replace_char_spec, string_from_range,
};
use minijinja::{Environment, Value};

verus! {

broadcast use vstd::string::group_string_axioms;

// ---------------------------------------------------------------------------
// UTF-8 byte lengths

/// Number of bytes in the UTF-8 encoding of `s`.
pub open spec fn byte_len(s: Seq<char>) -> nat {
    encode_utf8(s).len()
}

/// Number of bytes in the UTF-8 encoding of one character.
pub open spec fn char_width(c: char) -> nat {
    encode_scalar(c as u32).len()
}

/// The encoding of a concatenation is the concatenation of the encodings.
pub proof fn lemma_encode_utf8_concat(a: Seq<char>, b: Seq<char>)
    ensures
        encode_utf8(a + b) == encode_utf8(a) + encode_utf8(b),
    decreases a.len(),
{
    if a.len() == 0 {
        assert(a + b =~= b);
        assert(encode_utf8(a) =~= Seq::<u8>::empty());
        assert(encode_utf8(a) + encode_utf8(b) =~= encode_utf8(b));
    } else {
        assert((a + b).drop_first() =~= a.drop_first() + b);
        assert((a + b)[0] == a[0]);
        lemma_encode_utf8_concat(a.drop_first(), b);
        assert(encode_utf8(a + b) == encode_scalar(a[0] as u32) + encode_utf8(a.drop_first() + b));
        assert(encode_scalar(a[0] as u32) + (encode_utf8(a.drop_first()) + encode_utf8(b))
            =~= (encode_scalar(a[0] as u32) + encode_utf8(a.drop_first())) + encode_utf8(b));
    }
}

/// Byte length of a sequence with one more character.
pub proof fn lemma_byte_len_push(s: Seq<char>, c: char)
    ensures
        byte_len(s.push(c)) == byte_len(s) + char_width(c),
{
    lemma_encode_utf8_concat(s, seq![c]);
    assert(s.push(c) =~= s + seq![c]);
    assert(seq![c].drop_first() =~= Seq::<char>::empty());
    assert(encode_utf8(seq![c]) == encode_scalar(c as u32) + encode_utf8(Seq::<char>::empty()));
    assert(encode_utf8(seq![c]) =~= encode_scalar(c as u32));
}

/// An ASCII sequence takes one byte per character.
pub proof fn lemma_byte_len_ascii(s: Seq<char>)
    requires
        is_ascii_chars(s),
    ensures
        byte_len(s) == s.len(),
{
    is_ascii_chars_encode_utf8(s);
}

/// Number of UTF-8 bytes of `c`.
pub fn utf8_width(c: char) -> (w: usize)
    ensures
        w == char_width(c),
        1 <= w <= 4,
{
    proof {
        char_is_scalar(c);
    }
    let u = c as u32;
    if u < 0x80 {
        1
    } else if u < 0x800 {
        2
    } else if u < 0x10000 {
        3
    } else {
        4
    }
}

// ---------------------------------------------------------------------------
// Shortening with a stable hash

/// The FNV-1a hash (32 bit) of a byte sequence.
pub open spec fn fnv1a_spec(bytes: Seq<u8>) -> u32
    decreases bytes.len(),
{
    if bytes.len() == 0 {
        0x811c9dc5u32
    } else {
        (fnv1a_spec(bytes.drop_last()) ^ (bytes.last() as u32)).wrapping_mul(0x01000193u32)
    }
}

/// The FNV-1a hash (32 bit) of the bytes `b`.
pub fn fnv1a(b: &[u8]) -> (h: u32)
    ensures
        h == fnv1a_spec(b@),
{
    let mut h: u32 = 0x811c9dc5u32;
    let mut i: usize = 0;
    while i < b.len()
        invariant
            i <= b@.len(),
            h == fnv1a_spec(b@.take(i as int)),
        decreases b.len() - i,
    {
        assert(b@.take(i + 1).drop_last() =~= b@.take(i as int));
        h = (h ^ (b[i] as u32)).wrapping_mul(0x01000193u32);
        i = i + 1;
    }
    assert(b@.take(b@.len() as int) =~= b@);
    h
}

/// The lowercase hexadecimal digit for a value below 16.
pub open spec fn hex_digit(d: u32) -> char {
    if d < 10 {
        (('0' as u32) + d) as char
    } else {
        (('a' as u32) + d - 10) as char
    }
}

/// The `k`-th hexadecimal digit (most significant first) of `h`, written with
/// eight digits.
pub open spec fn nibble(h: u32, k: int) -> u32 {
    (h >> ((28 - 4 * k) as u32)) & 0xfu32
}

/// `format!("{h:08x}")`: `h` in lowercase hexadecimal, zero-padded to eight digits.
pub open spec fn hex8(h: u32) -> Seq<char> {
    Seq::new(8, |k: int| hex_digit(nibble(h, k)))
}

/// `format!("-{h:08x}")`: the suffix that marks a shortened name.
pub open spec fn hash_suffix(h: u32) -> Seq<char> {
    seq!['-'] + hex8(h)
}

/// Number of leading characters of `s` whose UTF-8 encoding fits in `budget` bytes.
pub open spec fn fit_chars(s: Seq<char>, budget: int) -> nat
    decreases s.len(),
{
    if s.len() == 0 || char_width(s[0]) > budget {
        0
    } else {
        1 + fit_chars(s.drop_first(), budget - char_width(s[0]))
    }
}

/// `value` shortened to at most `max_bytes` UTF-8 bytes: unchanged when it
/// fits; otherwise the longest whole-character prefix that leaves room for
/// `-` and the eight hex digits of the FNV-1a hash of `value`, followed by
/// them; and when not even the suffix fits, the last `max_bytes` characters
/// of the suffix.
pub open spec fn shorten_spec(value: Seq<char>, max_bytes: int) -> Seq<char> {
    if byte_len(value) <= max_bytes {
        value
    } else {
        let suffix = hash_suffix(fnv1a_spec(encode_utf8(value)));
        if max_bytes <= 9 {
            suffix.skip(9 - max_bytes)
        } else {
            value.take(fit_chars(value, max_bytes - 9) as int) + suffix
        }
    }
}

proof fn lemma_nibble_bound(h: u32, sh: u32)
    by (bit_vector)
    ensures
        (h >> sh) & 0xfu32 < 16,
{
}

proof fn lemma_hex_digit(d: u32)
    requires
        d < 16,
    ensures
        '0' <= hex_digit(d) <= '9' || 'a' <= hex_digit(d) <= 'f',
{
}

/// The hash suffix is ASCII, nine characters long, and holds no `/`.
pub proof fn lemma_hash_suffix(h: u32)
    ensures
        hash_suffix(h).len() == 9,
        is_ascii_chars(hash_suffix(h)),
        !has_char(hash_suffix(h), '/'),
{
    let s = hash_suffix(h);
    assert forall|i: int| 0 <= i < 9 implies '\0' <= #[trigger] s[i] <= '\u{7f}' && s[i]
        != '/' by {
        if i > 0 {
            let d = nibble(h, i - 1);
            lemma_nibble_bound(h, (28 - 4 * (i - 1)) as u32);
            lemma_hex_digit(d);
        }
    }
}

/// The fitted prefix fits.
pub proof fn lemma_fit_chars(s: Seq<char>, budget: int)
    ensures
        fit_chars(s, budget) <= s.len(),
        budget >= 0 ==> byte_len(s.take(fit_chars(s, budget) as int)) <= budget,
    decreases s.len(),
{
    if s.len() > 0 && char_width(s[0]) <= budget {
        let t = s.drop_first();
        lemma_fit_chars(t, budget - char_width(s[0]));
        let k = fit_chars(t, budget - char_width(s[0]));
        assert(s.take(k + 1 as int) =~= seq![s[0]] + t.take(k as int));
        lemma_encode_utf8_concat(seq![s[0]], t.take(k as int));
        assert(seq![s[0]].drop_first() =~= Seq::<char>::empty());
        assert(encode_utf8(seq![s[0]]) =~= encode_scalar(s[0] as u32) + encode_utf8(
            Seq::<char>::empty(),
        ));
    } else {
        assert(s.take(0) =~= Seq::<char>::empty());
    }
}

/// How many leading characters of `v` fit in `budget` UTF-8 bytes, and how
/// many bytes they take.
pub fn fit_prefix(v: &Vec<char>, budget: usize) -> (r: (usize, usize))
    ensures
        r.0 == fit_chars(v@, budget as int),
        r.0 <= v.len(),
        r.1 == byte_len(v@.take(r.0 as int)),
        r.1 <= budget,
{
    let mut i: usize = 0;
    let mut rem: usize = budget;
    assert(v@.skip(0) == v@);
    assert(v@.take(0) =~= Seq::<char>::empty());
    while i < v.len() && utf8_width(v[i]) <= rem
        invariant
            i <= v.len(),
            rem <= budget,
            fit_chars(v@, budget as int) == i + fit_chars(v@.skip(i as int), rem as int),
            byte_len(v@.take(i as int)) == budget - rem,
        decreases v.len() - i,
    {
        let w = utf8_width(v[i]);
        assert(v@.skip(i as int).drop_first() =~= v@.skip(i + 1));
        proof {
            lemma_byte_len_push(v@.take(i as int), v@[i as int]);
            assert(v@.take(i + 1) =~= v@.take(i as int).push(v@[i as int]));
        }
        rem = rem - w;
        i = i + 1;
    }
    (i, budget - rem)
}

/// `shorten_with_hash`: see `shorten_spec`.
pub fn shorten_with_hash(value: &str, max_bytes: usize) -> (r: String)
    ensures
        r@ == shorten_spec(value@, max_bytes as int),
{
    let bytes = value.as_bytes();
    if bytes.len() <= max_bytes {
        return value.to_owned();
    }
    let hash = fnv1a(bytes);
    let suffix = hex_suffix(hash);
    proof {
        lemma_hash_suffix(hash);
    }
    if max_bytes <= 9 {
        let sv = chars_of(suffix.as_str());
        let r = string_from_range(&sv, 9 - max_bytes, 9);
        assert(sv@.subrange(9 - max_bytes, 9) =~= sv@.skip(9 - max_bytes));
        return r;
    }
    let budget = max_bytes - 9;
    let v = chars_of(value);
    let (i, _used) = fit_prefix(&v, budget);
    let mut r = string_from_range(&v, 0, i);
    r.append(suffix.as_str());
    assert(v@.subrange(0, i as int) =~= v@.take(i as int));
    r
}

/// `format!("-{h:08x}")`.
pub fn hex_suffix(h: u32) -> (s: String)
    ensures
        s@ == hash_suffix(h),
{
    let mut s = String::new();
    push_char(&mut s, '-');
    let mut k: u32 = 0;
    while k < 8
        invariant
            k <= 8,
            s@ == seq!['-'] + hex8(h).take(k as int),
        decreases 8 - k,
    {
        let d = (h >> (28 - 4 * k)) & 0xfu32;
        proof {
            lemma_nibble_bound(h, (28 - 4 * k) as u32);
        }
        let c = if d < 10 {
            char_from_u32(('0' as u32) + d)
        } else {
            char_from_u32(('a' as u32) + d - 10)
        };
        assert(c == hex_digit(nibble(h, k as int)));
        push_char(&mut s, c);
        assert(hex8(h).take(k + 1) =~= hex8(h).take(k as int).push(c));
        k = k + 1;
    }
    assert(hex8(h).take(8) =~= hex8(h));
    s
}

/// The ASCII character with code `u`.
fn char_from_u32(u: u32) -> (c: char)
    requires
        u < 128,
    ensures
        c == u as char,
{
    (u as u8) as char
}

/// Any leading characters that fit in the budget are all kept.
pub proof fn lemma_fit_chars_covers(s: Seq<char>, budget: int, k: int)
    requires
        0 <= k <= s.len(),
        byte_len(s.take(k)) <= budget,
    ensures
        fit_chars(s, budget) >= k,
    decreases k,
{
    if k > 0 {
        let t = s.take(k);
        assert(t.drop_first() =~= s.drop_first().take(k - 1));
        assert(t[0] == s[0]);
        assert(encode_utf8(t) == encode_scalar(t[0] as u32) + encode_utf8(t.drop_first()));
        lemma_fit_chars_covers(s.drop_first(), budget - char_width(s[0]), k - 1);
    }
}

/// Law: a name that already fits is left unchanged, and a shortened name
/// ends with the hash suffix of the whole name when the budget leaves room
/// for it.
pub proof fn law_shorten_keeps_fitting_names(value: Seq<char>, max_bytes: int)
    ensures
        byte_len(value) <= max_bytes ==> shorten_spec(value, max_bytes) == value,
        byte_len(value) > max_bytes && max_bytes > 9 ==> shorten_spec(value, max_bytes).skip(
            shorten_spec(value, max_bytes).len() - 9,
        ) == hash_suffix(fnv1a_spec(encode_utf8(value))),
{
    if byte_len(value) > max_bytes && max_bytes > 9 {
        let suffix = hash_suffix(fnv1a_spec(encode_utf8(value)));
        lemma_hash_suffix(fnv1a_spec(encode_utf8(value)));
        let p = value.take(fit_chars(value, max_bytes - 9) as int);
        lemma_fit_chars(value, max_bytes - 9);
        assert((p + suffix).skip((p + suffix).len() - 9) =~= suffix);
    }
}

/// The shortened name fits in `max_bytes` bytes.
pub proof fn lemma_shorten_fits(value: Seq<char>, max_bytes: int)
    requires
        max_bytes >= 0,
    ensures
        byte_len(shorten_spec(value, max_bytes)) <= max_bytes,
{
    if byte_len(value) > max_bytes {
        let suffix = hash_suffix(fnv1a_spec(encode_utf8(value)));
        lemma_hash_suffix(fnv1a_spec(encode_utf8(value)));
        if max_bytes <= 9 {
            let t = suffix.skip(9 - max_bytes);
            assert(is_ascii_chars(t)) by {
                assert forall|i| 0 <= i < t.len() implies '\0' <= #[trigger] t[i] <= '\u{7f}' by {
                    assert(t[i] == suffix[i + 9 - max_bytes]);
                }
            }
            lemma_byte_len_ascii(t);
        } else {
            let p = value.take(fit_chars(value, max_bytes - 9) as int);
            lemma_fit_chars(value, max_bytes - 9);
            lemma_encode_utf8_concat(p, suffix);
            lemma_byte_len_ascii(suffix);
        }
    }
}

// ---------------------------------------------------------------------------
// Session names

/// A session as reported by a multiplexer backend.
#[derive(Debug, Clone)]
pub struct Session {
    pub name: String,
}

/// The two components a session name is made of.
#[derive(Debug, Clone)]
pub struct SessionName {
    pub repo: String,
    pub branch: String,
}

/// `repo:branch` with every `/` replaced by `:`, before any shortening.
pub open spec fn zellij_full_name(repo: Seq<char>, branch: Seq<char>) -> Seq<char> {
    replace_char_spec(repo, '/', ':') + seq![':'] + replace_char_spec(branch, '/', ':')
}

/// `repo-branch` with every `/` replaced by `-`.
pub open spec fn tmux_name_spec(repo: Seq<char>, branch: Seq<char>) -> Seq<char> {
    replace_char_spec(repo, '/', '-') + seq!['-'] + replace_char_spec(branch, '/', '-')
}

/// The byte budget for a zellij session name: the socket path limit, less
/// the socket directory and two bytes, never below zero.
pub open spec fn zellij_max_bytes_spec(socket_dir_len: int, socket_path_max: int) -> int {
    let a = if socket_path_max >= socket_dir_len {
        socket_path_max - socket_dir_len
    } else {
        0
    };
    if a >= 2 {
        a - 2
    } else {
        0
    }
}

/// How many bytes a zellij session name may take, given the byte length of
/// the directory that holds zellij's sockets and the longest socket path the
/// platform allows (104 on macOS, 108 elsewhere).
pub fn zellij_session_name_max_bytes(socket_dir_len: usize, socket_path_max: usize) -> (r: usize)
    ensures
        r == zellij_max_bytes_spec(socket_dir_len as int, socket_path_max as int),
{
    socket_path_max.saturating_sub(socket_dir_len).saturating_sub(2)
}

impl SessionName {
    pub fn new(repo: &str, branch: &str) -> (r: Self)
        ensures
            r.repo@ == repo@,
            r.branch@ == branch@,
    {
        SessionName { repo: repo.to_owned(), branch: branch.to_owned() }
    }

    /// The zellij form `repo:branch` (zellij does not allow `/`, so each `/`
    /// becomes `:`), shortened with a hash to at most `max_bytes` bytes.
    pub fn as_zellij_name_with_max_bytes(&self, max_bytes: usize) -> (r: String)
        ensures
            r@ == shorten_spec(zellij_full_name(self.repo@, self.branch@), max_bytes as int),
    {
        let repo = replace_char(self.repo.as_str(), '/', ':');
        let branch = replace_char(self.branch.as_str(), '/', ':');
        let full = concat3(repo.as_str(), ":", branch.as_str());
        proof {
            reveal_strlit(":");
            assert(":"@ =~= seq![':']);
        }
        shorten_with_hash(full.as_str(), max_bytes)
    }

    /// The zellij form, fitted to the socket-path budget of the socket
    /// directory whose byte length is `socket_dir_len`.
    pub fn as_zellij_name(&self, socket_dir_len: usize, socket_path_max: usize) -> (r: String)
        ensures
            r@ == shorten_spec(
                zellij_full_name(self.repo@, self.branch@),
                zellij_max_bytes_spec(socket_dir_len as int, socket_path_max as int),
            ),
    {
        self.as_zellij_name_with_max_bytes(
            zellij_session_name_max_bytes(socket_dir_len, socket_path_max),
        )
    }

    /// The tmux form `repo-branch` (tmux does not allow `/`, so each `/` becomes `-`).
    pub fn as_tmux_name(&self) -> (r: String)
        ensures
            r@ == tmux_name_spec(self.repo@, self.branch@),
    {
        let repo = replace_char(self.repo.as_str(), '/', '-');
        let branch = replace_char(self.branch.as_str(), '/', '-');
        proof {
            reveal_strlit("-");
        }
        concat3(repo.as_str(), "-", branch.as_str())
    }

    /// The human-readable form `repo/branch`.
    pub fn display(&self) -> (r: String)
        ensures
            r@ == self.repo@ + seq!['/'] + self.branch@,
    {
        proof {
            reveal_strlit("/");
        }
        concat3(self.repo.as_str(), "/", self.branch.as_str())
    }
}

/// No `/` survives a replacement of `/` by another character.
pub proof fn lemma_replace_removes(s: Seq<char>, to: char)
    requires
        to != '/',
    ensures
        !has_char(replace_char_spec(s, '/', to), '/'),
{
    let r = replace_char_spec(s, '/', to);
    assert forall|i: int| 0 <= i < r.len() implies r[i] != '/' by {
        assert(r[i] == (if s[i] == '/' { to } else { s[i] }));
    }
}

/// A tmux session name never holds a `/`, whatever the repo and branch.
pub proof fn law_tmux_name_has_no_slash(repo: Seq<char>, branch: Seq<char>)
    ensures
        !has_char(tmux_name_spec(repo, branch), '/'),
{
    lemma_replace_removes(repo, '-');
    lemma_replace_removes(branch, '-');
    let a = replace_char_spec(repo, '/', '-');
    let b = replace_char_spec(branch, '/', '-');
    let t = tmux_name_spec(repo, branch);
    assert forall|i: int| 0 <= i < t.len() implies t[i] != '/' by {
        if i < a.len() {
            assert(t[i] == a[i]);
        } else if i == a.len() {
            assert(t[i] == '-');
        } else {
            assert(t[i] == b[i - a.len() - 1]);
        }
    }
}

/// A zellij session name never holds a `/`, and never takes more than the
/// byte budget it was fitted to; a full name that fits is used unchanged.
pub proof fn law_zellij_name_fits_without_slash(repo: Seq<char>, branch: Seq<char>, max_bytes: int)
    requires
        max_bytes >= 0,
    ensures
        !has_char(shorten_spec(zellij_full_name(repo, branch), max_bytes), '/'),
        byte_len(shorten_spec(zellij_full_name(repo, branch), max_bytes)) <= max_bytes,
        byte_len(zellij_full_name(repo, branch)) <= max_bytes ==> shorten_spec(
            zellij_full_name(repo, branch),
            max_bytes,
        ) == zellij_full_name(repo, branch),
{
    lemma_replace_removes(repo, ':');
    lemma_replace_removes(branch, ':');
    let a = replace_char_spec(repo, '/', ':');
    let b = replace_char_spec(branch, '/', ':');
    let full = zellij_full_name(repo, branch);
    assert forall|i: int| 0 <= i < full.len() implies full[i] != '/' by {
        if i < a.len() {
            assert(full[i] == a[i]);
        } else if i == a.len() {
            assert(full[i] == ':');
        } else {
            assert(full[i] == b[i - a.len() - 1]);
        }
    }
    lemma_shorten_fits(full, max_bytes);
    let r = shorten_spec(full, max_bytes);
    if byte_len(full) > max_bytes {
        let suffix = hash_suffix(fnv1a_spec(encode_utf8(full)));
        lemma_hash_suffix(fnv1a_spec(encode_utf8(full)));
        if max_bytes <= 9 {
            assert forall|i: int| 0 <= i < r.len() implies r[i] != '/' by {
                assert(r[i] == suffix[i + 9 - max_bytes]);
            }
        } else {
            let k = fit_chars(full, max_bytes - 9);
            lemma_fit_chars(full, max_bytes - 9);
            assert forall|i: int| 0 <= i < r.len() implies r[i] != '/' by {
                if i < k {
                    assert(r[i] == full[i]);
                } else {
                    assert(r[i] == suffix[i - k]);
                }
            }
        }
    }
}


// ---------------------------------------------------------------------------
// Errors

/// Why a multiplexer operation failed.
#[derive(Debug)]
pub enum MuxError {
    /// A layout template could not be rendered; `detail` is the template
    /// engine's report.
    Template { detail: String },
    /// grove runs inside a zellij session, which cannot create or switch
    /// sessions.
    InsideZellij,
    /// A multiplexer command failed.
    Command { message: String },
}

impl MuxError {
    /// The human-readable text of the error.
    pub fn message(&self) -> (r: String)
        ensures
            r@ == match self {
                MuxError::Template { detail } => "Failed to render layout template: "@ + detail@,
                MuxError::InsideZellij =>
                    "You're inside a zellij session. Detach first (Ctrl-o d), then run grove again."@,
                MuxError::Command { message } => message@,
            },
    {
        match self {
            MuxError::Template { detail } => concat2(
                "Failed to render layout template: ",
                detail.as_str(),
            ),
            MuxError::InsideZellij => owned(
                "You're inside a zellij session. Detach first (Ctrl-o d), then run grove again.",
            ),
            MuxError::Command { message } => owned(message.as_str()),
        }
    }
}

// ---------------------------------------------------------------------------
// The multiplexer interface

/// A terminal multiplexer that grove drives.
pub trait Multiplexer {
    /// Create a session for the worktree at `worktree_path`, running `shell`.
    fn create_session(&self, name: &SessionName, worktree_path: &str, shell: &str) -> Result<
        (),
        MuxError,
    >;

    /// The sessions that currently exist.
    fn list_sessions(&self) -> Result<Vec<Session>, MuxError>;

    /// Attach the terminal to the session `name`.
    fn attach_session(&self, name: &str) -> Result<(), MuxError>;

    /// Destroy the session `name`.
    fn kill_session(&self, name: &str) -> Result<(), MuxError>;
}

// ---------------------------------------------------------------------------
// Layout templates

/// The variables every layout template can use.
#[derive(Debug)]
pub struct TemplateContext {
    /// Absolute path of the worktree directory.
    pub worktree_path: String,
    /// The user's shell binary name, such as `zsh`.
    pub shell: String,
    /// The session's full name in the multiplexer's form.
    pub session_name: String,
    /// The repository name.
    pub repo: String,
    /// The branch name.
    pub branch: String,
}

/// `minijinja::Error`, carried through opaquely.
#[verifier::external_type_specification]
#[verifier::external_body]
pub struct ExTemplateError(minijinja::Error);

/// Name for what minijinja renders from template source `template`,
/// compiled under the template name `name`, with the five variables bound
/// to the given strings: `None` when it fails to parse or to render.
pub uninterp spec fn minijinja_render(
    name: Seq<char>,
    template: Seq<char>,
    worktree_path: Seq<char>,
    shell: Seq<char>,
    session_name: Seq<char>,
    repo: Seq<char>,
    branch: Seq<char>,
) -> Option<Seq<char>>;

/// The name under which a layout template is compiled.
pub open spec fn layout_template_name() -> Seq<char> {
    "t"@
}

/// The rendering of `template` with the variables of `ctx`.
pub open spec fn render_spec(template: Seq<char>, ctx: TemplateContext) -> Option<Seq<char>> {
    minijinja_render(
        layout_template_name(),
        template,
        ctx.worktree_path@,
        ctx.shell@,
        ctx.session_name@,
        ctx.repo@,
        ctx.branch@,
    )
}

/// `Environment::render_named_str` on a fresh environment, with the
/// context's five variables as a map. Claims only that the result is a
/// function of the name, the template and the five values.
#[verifier::external_body]
fn render_named_str(name: &str, template: &str, ctx: &TemplateContext) -> (r: Result<
    String,
    minijinja::Error,
>)
    ensures
        match r {
            Ok(s) => minijinja_render(
                name@,
                template@,
                ctx.worktree_path@,
                ctx.shell@,
                ctx.session_name@,
                ctx.repo@,
                ctx.branch@,
            ) == Some(s@),
            Err(_) => minijinja_render(
                name@,
                template@,
                ctx.worktree_path@,
                ctx.shell@,
                ctx.session_name@,
                ctx.repo@,
                ctx.branch@,
            ) is None,
        },
{
    let value = Value::from_iter([
        ("worktree_path", Value::from(ctx.worktree_path.as_str())),
        ("shell", Value::from(ctx.shell.as_str())),
        ("session_name", Value::from(ctx.session_name.as_str())),
        ("repo", Value::from(ctx.repo.as_str())),
        ("branch", Value::from(ctx.branch.as_str())),
    ]);
    Environment::new().render_named_str(name, template, value)
}

/// The text of a minijinja error (its `Display`). Nothing is stated of it.
#[verifier::external_body]
fn template_error_text(e: &minijinja::Error) -> String {
    format!("{e}")
}

/// Render a layout template with the context's variables; the template is
/// compiled under the name `t`.
pub fn render_template(template_str: &str, ctx: &TemplateContext) -> (r: Result<String, MuxError>)
    ensures
        match r {
            Ok(s) => render_spec(template_str@, *ctx) == Some(s@),
            Err(e) => render_spec(template_str@, *ctx) is None && e is Template,
        },
{
    match render_named_str("t", template_str, ctx) {
        Ok(s) => Ok(s),
        Err(e) => Err(MuxError::Template { detail: template_error_text(&e) }),
    }
}

/// Where a user's override of a layout template lives: the file
/// `filename` in the `templates` directory of grove's configuration
/// directory.
pub fn template_path(config_dir: &str, filename: &str) -> (r: String)
    ensures
        r@ == join_spec(join_spec(config_dir@, "templates"@), filename@),
{
    let dir = join_path(config_dir, "templates");
    join_path(dir.as_str(), filename)
}

} // verus!
