//! Character-level string helpers, each stated over `Seq<char>`, the view of
//! a `String` or `&str`.
use vstd::prelude::*;
use vstd::std_specs::iter::IteratorSpec;

verus! {

broadcast use vstd::string::group_string_axioms;

/// `String::push`: appends one character to the end of the string.
#[verifier::external_body]
pub(crate) fn push_char(s: &mut String, c: char)
    ensures
        final(s)@ == old(s)@.push(c),
{
    s.push(c);
}

/// The characters of `s`, in order.
pub fn chars_of(s: &str) -> (v: Vec<char>)
    ensures
        v@ == s@,
{
    let mut v: Vec<char> = Vec::new();
    for c in it: s.chars()
        invariant
            v@ == it.seq().take(it.index() as int),
            it.seq() == s@,
    {
        v.push(c);
    }
    v
}

/// The string made of the characters `v[from..to]`.
pub fn string_from_range(v: &Vec<char>, from: usize, to: usize) -> (s: String)
    requires
        from <= to <= v.len(),
    ensures
        s@ == v@.subrange(from as int, to as int),
{
    let mut s = String::new();
    let mut i = from;
    while i < to
        invariant
            from <= i <= to <= v.len(),
            s@ == v@.subrange(from as int, i as int),
        decreases to - i,
    {
        push_char(&mut s, v[i]);
        i = i + 1;
        assert(s@ == v@.subrange(from as int, i as int));
    }
    s
}

/// The string made of all the characters of `v`.
pub fn string_from_chars(v: &Vec<char>) -> (s: String)
    ensures
        s@ == v@,
{
    let s = string_from_range(v, 0, v.len());
    assert(v@.subrange(0, v@.len() as int) == v@);
    s
}

/// A copy of `s`.
pub fn owned(s: &str) -> (r: String)
    ensures
        r@ == s@,
{
    s.to_owned()
}

/// `a` followed by `b`.
pub fn concat2(a: &str, b: &str) -> (r: String)
    ensures
        r@ == a@ + b@,
{
    let mut r = a.to_owned();
    r.append(b);
    r
}

/// `a`, `b` and `c` in turn.
pub fn concat3(a: &str, b: &str, c: &str) -> (r: String)
    ensures
        r@ == a@ + b@ + c@,
{
    let mut r = a.to_owned();
    r.append(b);
    r.append(c);
    r
}

/// Whether two strings hold the same characters.
pub fn str_eq(a: &str, b: &str) -> (r: bool)
    ensures
        r == (a@ == b@),
{
    let va = chars_of(a);
    let vb = chars_of(b);
    if va.len() != vb.len() {
        return false;
    }
    let mut i: usize = 0;
    while i < va.len()
        invariant
            va@ == a@,
            vb@ == b@,
            va.len() == vb.len(),
            i <= va.len(),
            forall|k: int| 0 <= k < i ==> va@[k] == vb@[k],
        decreases va.len() - i,
    {
        if va[i] != vb[i] {
            return false;
        }
        i = i + 1;
    }
    assert(a@ =~= b@);
    true
}

/// Whether `s` occurs in `v`.
pub fn contains_str(v: &Vec<String>, s: &str) -> (r: bool)
    ensures
        r == exists|i: int| 0 <= i < v@.len() && (#[trigger] v@[i])@ == s@,
{
    let mut i: usize = 0;
    while i < v.len()
        invariant
            i <= v.len(),
            forall|k: int| 0 <= k < i ==> (#[trigger] v@[k])@ != s@,
        decreases v.len() - i,
    {
        if str_eq(v[i].as_str(), s) {
            return true;
        }
        i = i + 1;
    }
    false
}

// ---------------------------------------------------------------------------
// Prefixes, suffixes, single characters

/// Whether `p` is a prefix of `s`.
pub open spec fn has_prefix(s: Seq<char>, p: Seq<char>) -> bool {
    p.len() <= s.len() && s.take(p.len() as int) == p
}

/// Whether `p` is a suffix of `s`.
pub open spec fn has_suffix(s: Seq<char>, p: Seq<char>) -> bool {
    p.len() <= s.len() && s.skip(s.len() - p.len()) == p
}

/// `str::strip_prefix`: the rest of `s` after the prefix `p`, when `s` starts with `p`.
pub open spec fn strip_prefix_spec(s: Seq<char>, p: Seq<char>) -> Option<Seq<char>> {
    if has_prefix(s, p) {
        Some(s.skip(p.len() as int))
    } else {
        None
    }
}

/// Whether `v[from..]` begins with `p`.
pub fn starts_with_at(v: &Vec<char>, from: usize, p: &Vec<char>) -> (r: bool)
    requires
        from <= v.len(),
    ensures
        r == has_prefix(v@.skip(from as int), p@),
{
    if v.len() - from < p.len() {
        return false;
    }
    let mut i: usize = 0;
    while i < p.len()
        invariant
            from + p.len() <= v.len(),
            i <= p.len(),
            forall|k: int| 0 <= k < i ==> v@[from + k] == p@[k],
        decreases p.len() - i,
    {
        if v[from + i] != p[i] {
            assert(v@.skip(from as int).take(p.len() as int)[i as int] != p@[i as int]);
            return false;
        }
        i = i + 1;
    }
    assert(v@.skip(from as int).take(p.len() as int) =~= p@);
    true
}

/// `str::starts_with`.
pub fn starts_with(s: &str, p: &str) -> (r: bool)
    ensures
        r == has_prefix(s@, p@),
{
    let v = chars_of(s);
    let pv = chars_of(p);
    assert(v@.skip(0) == v@);
    starts_with_at(&v, 0, &pv)
}

/// `str::ends_with`.
pub fn ends_with(s: &str, p: &str) -> (r: bool)
    ensures
        r == has_suffix(s@, p@),
{
    let v = chars_of(s);
    let pv = chars_of(p);
    if pv.len() > v.len() {
        return false;
    }
    let from = v.len() - pv.len();
    let r = starts_with_at(&v, from, &pv);
    assert(v@.skip(from as int).take(pv@.len() as int) == v@.skip(from as int));
    r
}

/// `str::strip_prefix`, returning an owned string.
pub fn strip_prefix(s: &str, p: &str) -> (r: Option<String>)
    ensures
        match r {
            Some(rest) => strip_prefix_spec(s@, p@) == Some(rest@),
            None => strip_prefix_spec(s@, p@) is None,
        },
{
    let v = chars_of(s);
    let pv = chars_of(p);
    assert(v@.skip(0) == v@);
    if starts_with_at(&v, 0, &pv) {
        Some(string_from_range(&v, pv.len(), v.len()))
    } else {
        None
    }
}

/// Whether `p` occurs somewhere in `s`.
pub open spec fn has_infix(s: Seq<char>, p: Seq<char>) -> bool {
    exists|i: int| 0 <= i <= s.len() && has_prefix(#[trigger] s.skip(i), p)
}

/// `str::contains` with a string pattern.
pub fn contains_substr(s: &str, p: &str) -> (r: bool)
    ensures
        r == has_infix(s@, p@),
{
    let v = chars_of(s);
    let pv = chars_of(p);
    let mut i: usize = 0;
    loop
        invariant
            v@ == s@,
            pv@ == p@,
            i <= v.len(),
            forall|k: int| 0 <= k < i ==> !has_prefix(#[trigger] v@.skip(k), p@),
        decreases v.len() - i,
    {
        if starts_with_at(&v, i, &pv) {
            return true;
        }
        if i == v.len() {
            return false;
        }
        i = i + 1;
    }
}

/// Whether `c` occurs in `s`.
pub open spec fn has_char(s: Seq<char>, c: char) -> bool {
    exists|i: int| 0 <= i < s.len() && s[i] == c
}

/// Index of the first `c` in `s` at or after `from`, or `s.len()` when there is none.
pub open spec fn find_from(s: Seq<char>, c: char, from: int) -> int
    decreases s.len() - from,
{
    if from >= s.len() {
        s.len() as int
    } else if s[from] == c {
        from
    } else {
        find_from(s, c, from + 1)
    }
}

/// What `find_from` returns: the first position at or after `from` holding `c`.
pub proof fn lemma_find_from(s: Seq<char>, c: char, from: int)
    requires
        0 <= from <= s.len(),
    ensures
        from <= find_from(s, c, from) <= s.len(),
        forall|k: int| from <= k < find_from(s, c, from) ==> s[k] != c,
        find_from(s, c, from) < s.len() ==> s[find_from(s, c, from)] == c,
    decreases s.len() - from,
{
    if from < s.len() && s[from] != c {
        lemma_find_from(s, c, from + 1);
    }
}

/// The first position at or after `from` holding `c` is the one a scan finds.
pub proof fn lemma_find_from_unique(s: Seq<char>, c: char, from: int, m: int)
    requires
        0 <= from <= m <= s.len(),
        forall|k: int| from <= k < m ==> s[k] != c,
        m < s.len() ==> s[m] == c,
    ensures
        find_from(s, c, from) == m,
    decreases m - from,
{
    if from < m {
        lemma_find_from_unique(s, c, from + 1, m);
    }
}

/// Exec counterpart of `find_from`.
pub fn find_char_from(v: &Vec<char>, c: char, from: usize) -> (r: usize)
    requires
        from <= v.len(),
    ensures
        r == find_from(v@, c, from as int),
{
    let mut i = from;
    while i < v.len()
        invariant
            from <= i <= v.len(),
            forall|k: int| from <= k < i ==> v@[k] != c,
        decreases v.len() - i,
    {
        if v[i] == c {
            proof {
                lemma_find_from_unique(v@, c, from as int, i as int);
            }
            return i;
        }
        i = i + 1;
    }
    proof {
        lemma_find_from_unique(v@, c, from as int, v.len() as int);
    }
    i
}

/// `str::split_once` on a character: the text before and after the first `c`.
pub open spec fn split_once_spec(s: Seq<char>, c: char) -> Option<(Seq<char>, Seq<char>)> {
    let i = find_from(s, c, 0);
    if i < s.len() {
        Some((s.take(i), s.skip(i + 1)))
    } else {
        None
    }
}

/// `str::split_once` on a character.
pub fn split_once(s: &str, c: char) -> (r: Option<(String, String)>)
    ensures
        match r {
            Some((a, b)) => split_once_spec(s@, c) == Some((a@, b@)),
            None => split_once_spec(s@, c) is None,
        },
{
    let v = chars_of(s);
    let i = find_char_from(&v, c, 0);
    if i < v.len() {
        let a = string_from_range(&v, 0, i);
        let b = string_from_range(&v, i + 1, v.len());
        assert(v@.subrange(0, i as int) == v@.take(i as int));
        assert(v@.subrange(i + 1, v@.len() as int) == v@.skip(i + 1));
        Some((a, b))
    } else {
        None
    }
}

/// Whether `c` occurs in `s`.
pub fn contains_char(s: &str, c: char) -> (r: bool)
    ensures
        r == has_char(s@, c),
{
    let v = chars_of(s);
    let i = find_char_from(&v, c, 0);
    proof {
        lemma_find_from(v@, c, 0);
    }
    i < v.len()
}

/// `str::replace` of one character by another.
pub open spec fn replace_char_spec(s: Seq<char>, from: char, to: char) -> Seq<char> {
    s.map_values(|x: char| if x == from { to } else { x })
}

/// `str::replace` of one character by another.
pub fn replace_char(s: &str, from: char, to: char) -> (r: String)
    ensures
        r@ == replace_char_spec(s@, from, to),
{
    let v = chars_of(s);
    let mut r = String::new();
    let mut i: usize = 0;
    while i < v.len()
        invariant
            v@ == s@,
            i <= v.len(),
            r@ == replace_char_spec(v@.take(i as int), from, to),
        decreases v.len() - i,
    {
        let x = v[i];
        push_char(&mut r, if x == from { to } else { x });
        i = i + 1;
        assert(replace_char_spec(v@.take(i as int), from, to) =~= replace_char_spec(
            v@.take(i - 1),
            from,
            to,
        ).push(if x == from { to } else { x }));
    }
    assert(v@.take(v@.len() as int) == v@);
    r
}

// ---------------------------------------------------------------------------
// Lines

/// A line without the `\r` that ends it, if any.
pub open spec fn strip_cr(line: Seq<char>) -> Seq<char> {
    if line.len() > 0 && line.last() == '\r' {
        line.drop_last()
    } else {
        line
    }
}

/// `str::lines`: the text split at each `\n`, each piece without a final `\r`;
/// a final `\n` does not start an empty line, and a last piece with no `\n`
/// after it keeps its `\r`.
pub open spec fn lines_spec(s: Seq<char>) -> Seq<Seq<char>>
    decreases s.len(),
{
    if s.len() == 0 {
        seq![]
    } else {
        let i = find_from(s, '\n', 0);
        if i < s.len() {
            proof {
                lemma_find_from(s, '\n', 0);
            }
            seq![strip_cr(s.take(i))] + lines_spec(s.skip(i + 1))
        } else {
            seq![s]
        }
    }
}

/// The text made of the lines `ls`, each followed by `\n`.
pub open spec fn join_lines(ls: Seq<Seq<char>>) -> Seq<char>
    decreases ls.len(),
{
    if ls.len() == 0 {
        Seq::empty()
    } else {
        ls[0] + seq!['\n'] + join_lines(ls.drop_first())
    }
}

/// Whether no line holds a line break (`\n` or `\r`).
pub open spec fn plain_lines(ls: Seq<Seq<char>>) -> bool {
    forall|i: int| 0 <= i < ls.len() ==> !has_char(#[trigger] ls[i], '\n') && !has_char(ls[i], '\r')
}

/// Lines without line breaks, each ended by `\n`, split back into the same
/// lines.
pub proof fn lemma_lines_of_joined(ls: Seq<Seq<char>>)
    requires
        plain_lines(ls),
    ensures
        lines_spec(join_lines(ls)) == ls,
    decreases ls.len(),
{
    if ls.len() > 0 {
        let l = ls[0];
        let rest = ls.drop_first();
        assert(plain_lines(rest)) by {
            assert forall|i: int| 0 <= i < rest.len() implies !has_char(#[trigger] rest[i], '\n')
                && !has_char(rest[i], '\r') by {
                assert(rest[i] == ls[i + 1]);
            }
        }
        lemma_lines_of_joined(rest);
        let t = join_lines(ls);
        assert(t == l + seq!['\n'] + join_lines(rest));
        assert(!has_char(l, '\n'));
        assert forall|k: int| 0 <= k < l.len() implies t[k] != '\n' by {
            assert(t[k] == l[k]);
        }
        assert(t[l.len() as int] == '\n');
        lemma_find_from_unique(t, '\n', 0, l.len() as int);
        assert(t.take(l.len() as int) =~= l);
        assert(t.skip(l.len() + 1 as int) =~= join_lines(rest));
        if l.len() > 0 {
            assert(l.last() != '\r') by {
                assert(l[l.len() - 1] == l.last());
            }
        }
        assert(strip_cr(l) == l);
        assert(lines_spec(t) =~= seq![l] + rest);
        assert(seq![l] + rest =~= ls);
    } else {
        assert(join_lines(ls) =~= Seq::<char>::empty());
        assert(lines_spec(join_lines(ls)) =~= ls);
    }
}

/// The views of a vector of strings.
pub open spec fn views(v: Seq<String>) -> Seq<Seq<char>> {
    v.map_values(|x: String| x@)
}

/// `str::lines`, as owned strings.
pub fn lines(s: &str) -> (r: Vec<String>)
    ensures
        views(r@) == lines_spec(s@),
{
    let v = chars_of(s);
    let n = v.len();
    let mut acc: Vec<String> = Vec::new();
    let mut start: usize = 0;
    assert(v@.skip(0) == v@);
    while start < n
        invariant
            v@ == s@,
            n == v.len(),
            start <= n,
            lines_spec(v@) == views(acc@) + lines_spec(v@.skip(start as int)),
        decreases n - start,
    {
        let i = find_char_from(&v, '\n', start);
        let ghost rest = v@.skip(start as int);
        proof {
            lemma_find_from(v@, '\n', start as int);
            lemma_find_from_unique(rest, '\n', 0, i - start);
        }
        let ghost old_acc = views(acc@);
        if i < n {
            let line = if i > start && v[i - 1] == '\r' {
                string_from_range(&v, start, i - 1)
            } else {
                string_from_range(&v, start, i)
            };
            assert(line@ == strip_cr(rest.take(i - start)));
            acc.push(line);
            assert(rest.skip(i - start + 1) =~= v@.skip(i + 1));
            assert(views(acc@) =~= old_acc.push(line@));
            assert(lines_spec(rest) == seq![line@] + lines_spec(v@.skip(i + 1)));
            assert(old_acc.push(line@) + lines_spec(v@.skip(i + 1)) =~= old_acc + (seq![line@]
                + lines_spec(v@.skip(i + 1))));
            start = i + 1;
        } else {
            let line = string_from_range(&v, start, n);
            assert(line@ == rest);
            acc.push(line);
            assert(views(acc@) =~= old_acc.push(line@));
            assert(v@.skip(n as int) =~= Seq::<char>::empty());
            assert(old_acc.push(line@) =~= old_acc + seq![line@]);
            start = n;
        }
    }
    assert(v@.skip(n as int) =~= Seq::<char>::empty());
    assert(views(acc@) + Seq::<Seq<char>>::empty() =~= views(acc@));
    acc
}

// ---------------------------------------------------------------------------
// Whitespace

/// `char::is_whitespace`: the characters with the Unicode `White_Space` property.
pub open spec fn is_ws(c: char) -> bool {
    let u = c as u32;
    ||| 0x9 <= u <= 0xD
    ||| u == 0x20
    ||| u == 0x85
    ||| u == 0xA0
    ||| u == 0x1680
    ||| 0x2000 <= u <= 0x200A
    ||| u == 0x2028
    ||| u == 0x2029
    ||| u == 0x202F
    ||| u == 0x205F
    ||| u == 0x3000
}

/// Exec counterpart of `is_ws`.
pub fn is_whitespace(c: char) -> (r: bool)
    ensures
        r == is_ws(c),
{
    let u = c as u32;
    (0x9 <= u && u <= 0xD) || u == 0x20 || u == 0x85 || u == 0xA0 || u == 0x1680 || (0x2000
        <= u && u <= 0x200A) || u == 0x2028 || u == 0x2029 || u == 0x202F || u == 0x205F || u
        == 0x3000
}

/// Length of the longest prefix of `s` whose characters are all whitespace
/// (`ws == true`) or all non-whitespace (`ws == false`).
pub open spec fn run_len(s: Seq<char>, ws: bool) -> nat
    decreases s.len(),
{
    if s.len() == 0 || is_ws(s[0]) != ws {
        0
    } else {
        1 + run_len(s.drop_first(), ws)
    }
}

/// Length of the longest suffix of `s` made of whitespace.
pub open spec fn trail_ws(s: Seq<char>) -> nat
    decreases s.len(),
{
    if s.len() == 0 || !is_ws(s.last()) {
        0
    } else {
        1 + trail_ws(s.drop_last())
    }
}

/// `str::trim`: `s` without leading and trailing whitespace.
pub open spec fn trim_spec(s: Seq<char>) -> Seq<char> {
    let t = s.skip(run_len(s, true) as int);
    t.take(t.len() - trail_ws(t))
}

/// `run_len` is the position of the first character that breaks the run.
pub proof fn lemma_run_len(s: Seq<char>, ws: bool, m: int)
    requires
        0 <= m <= s.len(),
        forall|k: int| 0 <= k < m ==> is_ws(s[k]) == ws,
        m < s.len() ==> is_ws(s[m]) != ws,
    ensures
        run_len(s, ws) == m,
    decreases m,
{
    if m > 0 {
        let t = s.drop_first();
        assert forall|k: int| 0 <= k < m - 1 implies is_ws(t[k]) == ws by {
            assert(t[k] == s[k + 1]);
        }
        if m - 1 < t.len() {
            assert(t[m - 1] == s[m]);
        }
        lemma_run_len(t, ws, m - 1);
    }
}

/// `trail_ws` is the length of the whitespace run that ends the sequence.
pub proof fn lemma_trail_ws(s: Seq<char>, m: int)
    requires
        0 <= m <= s.len(),
        forall|k: int| m <= k < s.len() ==> is_ws(s[k]),
        m > 0 ==> !is_ws(s[m - 1]),
    ensures
        trail_ws(s) == s.len() - m,
    decreases s.len() - m,
{
    if m < s.len() {
        let t = s.drop_last();
        assert forall|k: int| m <= k < t.len() implies is_ws(t[k]) by {
            assert(t[k] == s[k]);
        }
        if m > 0 {
            assert(t[m - 1] == s[m - 1]);
        }
        lemma_trail_ws(t, m);
    }
}

/// End of the run of characters whose whitespace-ness is `ws`, starting at `from`.
pub fn run_end(v: &Vec<char>, from: usize, ws: bool) -> (r: usize)
    requires
        from <= v.len(),
    ensures
        from <= r <= v.len(),
        r - from == run_len(v@.skip(from as int), ws),
{
    let mut i = from;
    while i < v.len() && is_whitespace(v[i]) == ws
        invariant
            from <= i <= v.len(),
            forall|k: int| from <= k < i ==> is_ws(v@[k]) == ws,
        decreases v.len() - i,
    {
        i = i + 1;
    }
    proof {
        let t = v@.skip(from as int);
        assert forall|k: int| 0 <= k < i - from implies is_ws(t[k]) == ws by {
            assert(t[k] == v@[from + k]);
        }
        if i - from < t.len() {
            assert(t[i - from] == v@[i as int]);
        }
        lemma_run_len(t, ws, i - from);
    }
    i
}

/// `str::trim`.
pub fn trim(s: &str) -> (r: String)
    ensures
        r@ == trim_spec(s@),
{
    let v = chars_of(s);
    assert(v@.skip(0) == v@);
    let a = run_end(&v, 0, true);
    let mut b = v.len();
    while b > a && is_whitespace(v[b - 1])
        invariant
            a <= b <= v.len(),
            forall|k: int| b <= k < v.len() ==> is_ws(v@[k]),
        decreases b - a,
    {
        b = b - 1;
    }
    proof {
        let t = v@.skip(a as int);
        assert forall|k: int| b - a <= k < t.len() implies is_ws(t[k]) by {
            assert(t[k] == v@[a + k]);
        }
        if b - a > 0 {
            assert(t[b - a - 1] == v@[b - 1]);
        }
        lemma_trail_ws(t, b - a);
        assert(t.take(t.len() - trail_ws(t)) =~= v@.subrange(a as int, b as int));
    }
    string_from_range(&v, a, b)
}

/// `str::split_whitespace().next()`: the first run of non-whitespace characters.
pub open spec fn first_word_spec(s: Seq<char>) -> Option<Seq<char>> {
    let t = s.skip(run_len(s, true) as int);
    if t.len() == 0 {
        None
    } else {
        Some(t.take(run_len(t, false) as int))
    }
}

/// `str::split_whitespace().next()`.
pub fn first_word(s: &str) -> (r: Option<String>)
    ensures
        match r {
            Some(w) => first_word_spec(s@) == Some(w@),
            None => first_word_spec(s@) is None,
        },
{
    let v = chars_of(s);
    assert(v@.skip(0) == v@);
    let a = run_end(&v, 0, true);
    if a == v.len() {
        return None;
    }
    let b = run_end(&v, a, false);
    assert(v@.skip(a as int).take(b - a) =~= v@.subrange(a as int, b as int));
    Some(string_from_range(&v, a, b))
}

// ---------------------------------------------------------------------------
// Paths

/// `Path::join` on Unix: a component that starts with `/` replaces the base;
/// otherwise a `/` separates the two unless the base is empty or already ends
/// with one.
pub open spec fn join_spec(base: Seq<char>, comp: Seq<char>) -> Seq<char> {
    if comp.len() > 0 && comp[0] == '/' {
        comp
    } else if base.len() == 0 || base.last() == '/' {
        base + comp
    } else {
        base + seq!['/'] + comp
    }
}

/// `Path::join` on Unix paths held as strings.
pub fn join_path(base: &str, comp: &str) -> (r: String)
    ensures
        r@ == join_spec(base@, comp@),
{
    let cv = chars_of(comp);
    if cv.len() > 0 && cv[0] == '/' {
        return comp.to_owned();
    }
    let bv = chars_of(base);
    if bv.len() == 0 || bv[bv.len() - 1] == '/' {
        concat2(base, comp)
    } else {
        proof {
            reveal_strlit("/");
            assert("/"@ =~= seq!['/']);
        }
        concat3(base, "/", comp)
    }
}

// ---------------------------------------------------------------------------
// Numbers

/// The decimal digit `d` (for `d < 10`).
pub open spec fn digit_char(d: nat) -> char {
    (48 + d) as char
}

/// `n` written in decimal, as `format!("{n}")` writes an unsigned integer.
pub open spec fn decimal(n: nat) -> Seq<char>
    decreases n,
{
    if n < 10 {
        seq![digit_char(n)]
    } else {
        decimal(n / 10).push(digit_char(n % 10))
    }
}

/// `n.to_string()` for an unsigned integer.
pub fn decimal_string(n: usize) -> (s: String)
    ensures
        s@ == decimal(n as nat),
    decreases n,
{
    if n < 10 {
        let mut s = String::new();
        push_char(&mut s, ((48 + n) as u8) as char);
        assert(s@ =~= seq![digit_char(n as nat)]);
        s
    } else {
        let mut s = decimal_string(n / 10);
        push_char(&mut s, ((48 + n % 10) as u8) as char);
        s
    }
}

// ---------------------------------------------------------------------------
// Ordering

/// The order of `String`'s `Ord`: lexicographic by character code point
/// (the byte order of UTF-8, which preserves code point order).
pub open spec fn seq_lt(a: Seq<char>, b: Seq<char>) -> bool
    decreases a.len(),
{
    if a.len() == 0 {
        b.len() > 0
    } else if b.len() == 0 {
        false
    } else if a[0] != b[0] {
        (a[0] as u32) < (b[0] as u32)
    } else {
        seq_lt(a.drop_first(), b.drop_first())
    }
}

/// `seq_lt` is a strict total order.
pub proof fn lemma_seq_lt_total(a: Seq<char>, b: Seq<char>)
    ensures
        !seq_lt(a, a),
        !(seq_lt(a, b) && seq_lt(b, a)),
        a != b ==> seq_lt(a, b) || seq_lt(b, a),
    decreases a.len(),
{
    if a.len() > 0 {
        lemma_seq_lt_total(a.drop_first(), a.drop_first());
        if b.len() > 0 {
            lemma_seq_lt_total(a.drop_first(), b.drop_first());
            if a[0] == b[0] && a != b {
                assert(a.drop_first() != b.drop_first()) by {
                    if a.drop_first() == b.drop_first() {
                        assert(a =~= seq![a[0]] + a.drop_first());
                        assert(b =~= seq![b[0]] + b.drop_first());
                    }
                }
            }
            if a[0] != b[0] {
                vstd::utf8::char_u32_cast(a[0], a[0] as u32);
                vstd::utf8::char_u32_cast(b[0], b[0] as u32);
            }
        }
    } else {
        if b.len() == 0 {
            assert(a =~= b);
        }
    }
}

/// `seq_lt` is transitive.
pub proof fn lemma_seq_lt_trans(a: Seq<char>, b: Seq<char>, c: Seq<char>)
    requires
        seq_lt(a, b),
        seq_lt(b, c),
    ensures
        seq_lt(a, c),
    decreases a.len(),
{
    if a.len() > 0 && b.len() > 0 && c.len() > 0 {
        if a[0] == b[0] && b[0] == c[0] {
            lemma_seq_lt_trans(a.drop_first(), b.drop_first(), c.drop_first());
        }
    }
}

/// Whether `a` sorts strictly before `b`.
pub fn str_less(a: &str, b: &str) -> (r: bool)
    ensures
        r == seq_lt(a@, b@),
{
    let va = chars_of(a);
    let vb = chars_of(b);
    let mut i: usize = 0;
    assert(va@.skip(0) =~= va@);
    assert(vb@.skip(0) =~= vb@);
    while i < va.len() && i < vb.len() && va[i] == vb[i]
        invariant
            i <= va.len(),
            i <= vb.len(),
            seq_lt(va@, vb@) == seq_lt(va@.skip(i as int), vb@.skip(i as int)),
        decreases va.len() - i,
    {
        assert(va@.skip(i as int).drop_first() =~= va@.skip(i + 1));
        assert(vb@.skip(i as int).drop_first() =~= vb@.skip(i + 1));
        i = i + 1;
    }
    if i == va.len() {
        i < vb.len()
    } else if i == vb.len() {
        false
    } else {
        (va[i] as u32) < (vb[i] as u32)
    }
}


/// `a` sorts before `b` or equals it.
pub open spec fn seq_le(a: Seq<char>, b: Seq<char>) -> bool {
    a == b || seq_lt(a, b)
}

/// In non-decreasing order.
pub open spec fn sorted_seqs(s: Seq<Seq<char>>) -> bool {
    forall|i: int, j: int| 0 <= i < j < s.len() ==> seq_le(#[trigger] s[i], #[trigger] s[j])
}

/// `t` holds the elements of `s`, each as often, in non-decreasing order.
pub open spec fn is_sorted_perm(t: Seq<Seq<char>>, s: Seq<Seq<char>>) -> bool {
    sorted_seqs(t) && t.to_multiset() == s.to_multiset()
}

/// The first element of a non-empty sorted sequence sorts before or equals
/// every element it holds.
proof fn lemma_sorted_first_is_least(t: Seq<Seq<char>>, x: Seq<char>)
    requires
        sorted_seqs(t),
        t.len() > 0,
        t.to_multiset().count(x) > 0,
    ensures
        seq_le(t[0], x),
{
    broadcast use vstd::seq_lib::group_to_multiset_ensures;

    assert(t.contains(x));
    let j = choose|j: int| 0 <= j < t.len() && t[j] == x;
    if j > 0 {
        assert(seq_le(t[0], t[j]));
    }
}

/// Law: a multiset of strings has exactly one sorted arrangement, so the
/// order `sort_strings` produces is fully determined by its input.
pub proof fn law_sorted_perm_unique(a: Seq<Seq<char>>, b: Seq<Seq<char>>, s: Seq<Seq<char>>)
    requires
        is_sorted_perm(a, s),
        is_sorted_perm(b, s),
    ensures
        a == b,
    decreases a.len(),
{
    broadcast use vstd::seq_lib::group_to_multiset_ensures;

    assert(a.len() == a.to_multiset().len());
    assert(b.len() == b.to_multiset().len());
    if a.len() == 0 {
        assert(a =~= b);
    } else {
        assert(a.to_multiset().count(a[0]) > 0) by {
            assert(a.contains(a[0]));
        }
        assert(b.to_multiset().count(b[0]) > 0) by {
            assert(b.contains(b[0]));
        }
        lemma_sorted_first_is_least(a, b[0]);
        lemma_sorted_first_is_least(b, a[0]);
        if a[0] != b[0] {
            lemma_seq_lt_total(a[0], b[0]);
        }
        let ar = a.remove(0);
        let br = b.remove(0);
        assert(ar =~= a.drop_first());
        assert(br =~= b.drop_first());
        assert(sorted_seqs(ar)) by {
            assert forall|i: int, j: int| 0 <= i < j < ar.len() implies seq_le(
                #[trigger] ar[i],
                #[trigger] ar[j],
            ) by {
                assert(seq_le(a[i + 1], a[j + 1]));
            }
        }
        assert(sorted_seqs(br)) by {
            assert forall|i: int, j: int| 0 <= i < j < br.len() implies seq_le(
                #[trigger] br[i],
                #[trigger] br[j],
            ) by {
                assert(seq_le(b[i + 1], b[j + 1]));
            }
        }
        assert(ar.to_multiset() == br.to_multiset());
        law_sorted_perm_unique(ar, br, ar);
        assert(a =~= seq![a[0]] + ar);
        assert(b =~= seq![b[0]] + br);
    }
}

/// The strings of `v`, sorted as `slice::sort` sorts them.
pub fn sort_strings(v: &Vec<String>) -> (r: Vec<String>)
    ensures
        is_sorted_perm(views(r@), views(v@)),
{
    broadcast use vstd::seq_lib::group_to_multiset_ensures;

    let mut r: Vec<String> = Vec::new();
    let mut i: usize = 0;
    assert(views(v@).take(0) =~= Seq::<Seq<char>>::empty());
    assert(views(r@) =~= Seq::<Seq<char>>::empty());
    while i < v.len()
        invariant
            i <= v.len(),
            sorted_seqs(views(r@)),
            views(r@).to_multiset() == views(v@).take(i as int).to_multiset(),
        decreases v.len() - i,
    {
        let x = v[i].as_str();
        let ghost rv = views(r@);
        let mut p: usize = 0;
        while p < r.len() && !str_less(x, r[p].as_str())
            invariant
                p <= r.len(),
                rv == views(r@),
                forall|k: int| 0 <= k < p ==> !seq_lt(x@, #[trigger] rv[k]),
            decreases r.len() - p,
        {
            p = p + 1;
        }
        r.insert(p, owned(x));
        proof {
            let nv = views(r@);
            assert(nv =~= rv.insert(p as int, x@));
            assert(views(v@).take(i + 1) =~= views(v@).take(i as int).push(x@));
            vstd::seq_lib::to_multiset_insert(rv, p as int, x@);
            vstd::seq_lib::to_multiset_build(views(v@).take(i as int), x@);
            assert forall|a: int, b: int| 0 <= a < b < nv.len() implies seq_le(
                #[trigger] nv[a],
                #[trigger] nv[b],
            ) by {
                if b < p {
                    assert(seq_le(rv[a], rv[b]));
                } else if b == p {
                    lemma_seq_lt_total(rv[a], x@);
                } else if a == p {
                    // x < rv[p] <= rv[b - 1]
                    lemma_seq_lt_total(x@, rv[p as int]);
                    if b - 1 > p {
                        assert(seq_le(rv[p as int], rv[b - 1]));
                        if rv[p as int] != rv[b - 1] {
                            lemma_seq_lt_trans(x@, rv[p as int], rv[b - 1]);
                        }
                    }
                } else if a < p {
                    // rv[a] <= x < rv[p] <= rv[b - 1]
                    lemma_seq_lt_total(rv[a], x@);
                    lemma_seq_lt_total(x@, rv[p as int]);
                    assert(seq_le(rv[a], rv[b - 1]));
                } else {
                    assert(seq_le(rv[a - 1], rv[b - 1]));
                }
            }
        }
        i = i + 1;
    }
    assert(views(v@).take(i as int) =~= views(v@));
    r
}

} // verus!
