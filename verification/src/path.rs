//! Guest paths: where they lead in the sandbox, how they are completed, and the
//! wildcards that names are matched against.

use vstd::prelude::*;

use crate::hive::starts_with;
use crate::ntreg::trimmed;
use crate::text::{
    append_str, chars_of, lower_text, numeral, numeral_chars, str_eq, string_of, sub_chars,
    to_lower_chars,
};

verus! {

// ---- the sandbox ------------------------------------------------------------

/// Whether a character separates the components of a path.
pub open spec fn is_slash(c: char) -> bool {
    c == '\\' || c == '/'
}

/// What marks a path as verbatim.
pub open spec fn verbatim() -> Seq<char> {
    seq!['\\', '\\', '?', '\\']
}

/// A path without the verbatim marks it starts with.
pub open spec fn without_verbatim(s: Seq<char>) -> Seq<char>
    decreases s.len(),
{
    if starts_with(s, verbatim()) {
        without_verbatim(s.skip(4))
    } else {
        s
    }
}

/// A component as the host sees it: a drive loses its colon, and what names no
/// entry (nothing, the directory itself, its parent) is dropped.
pub open spec fn host_part(c: Seq<char>) -> Option<Seq<char>> {
    let d = if c.len() > 0 && c.last() == ':' {
        c.drop_last()
    } else {
        c
    };
    if d.len() == 0 || d == seq!['.'] || d == seq!['.', '.'] {
        None
    } else {
        Some(d)
    }
}

/// The kept component, as a list.
pub open spec fn part_list(c: Seq<char>) -> Seq<Seq<char>> {
    match host_part(c) {
        Some(d) => seq![d],
        None => Seq::empty(),
    }
}

/// The part of a text up to its first separator.
pub open spec fn upto_slash(s: Seq<char>) -> Seq<char>
    decreases s.len(),
{
    if s.len() == 0 || is_slash(s[0]) {
        Seq::empty()
    } else {
        seq![s[0]] + upto_slash(s.drop_first())
    }
}

/// A component holds no separator and is no longer than its text.
pub proof fn lemma_upto_slash(s: Seq<char>)
    ensures
        upto_slash(s).len() <= s.len(),
        upto_slash(s) == s.take(upto_slash(s).len() as int),
        forall|i: int| 0 <= i < upto_slash(s).len() ==> !is_slash(#[trigger] upto_slash(s)[i]),
        upto_slash(s).len() < s.len() ==> is_slash(s[upto_slash(s).len() as int]),
    decreases s.len(),
{
    if s.len() > 0 && !is_slash(s[0]) {
        lemma_upto_slash(s.drop_first());
        assert(upto_slash(s) =~= s.take(upto_slash(s).len() as int));
    } else {
        assert(s.take(0) =~= Seq::<char>::empty());
    }
}

/// The components of a path that name entries.
pub open spec fn kept_parts(s: Seq<char>) -> Seq<Seq<char>>
    decreases s.len(),
    via kept_parts_decreases
{
    let c = upto_slash(s);
    if c.len() >= s.len() {
        part_list(c)
    } else {
        part_list(c) + kept_parts(s.skip(c.len() as int + 1))
    }
}

#[via_fn]
proof fn kept_parts_decreases(s: Seq<char>) {
    lemma_upto_slash(s);
}

/// Where a guest path leads below the sandbox.
pub open spec fn sandbox_parts(guest: Seq<char>) -> Seq<Seq<char>> {
    kept_parts(without_verbatim(guest))
}

/// Whether a component names an entry of the directory it is looked up in, and
/// of no other.
pub open spec fn is_plain_part(c: Seq<char>) -> bool {
    &&& c.len() > 0
    &&& c != seq!['.']
    &&& c != seq!['.', '.']
    &&& forall|i: int| 0 <= i < c.len() ==> !is_slash(#[trigger] c[i])
}

/// No path leads out of the sandbox: every component names an entry of the
/// directory before it.
pub proof fn lemma_stays_inside(s: Seq<char>, i: int)
    requires
        0 <= i < kept_parts(s).len(),
    ensures
        is_plain_part(kept_parts(s)[i]),
    decreases s.len(),
{
    lemma_upto_slash(s);
    let c = upto_slash(s);
    if i >= part_list(c).len() {
        lemma_stays_inside(s.skip(c.len() as int + 1), i - part_list(c).len());
    }
}

/// The texts of some strings.
pub open spec fn string_views(v: Seq<String>) -> Seq<Seq<char>> {
    Seq::new(v.len(), |i: int| v[i]@)
}

/// The same strings once more.
pub fn clone_strings(v: &Vec<String>) -> (r: Vec<String>)
    ensures
        string_views(r@) == string_views(v@),
{
    let mut out: Vec<String> = Vec::new();
    let mut i: usize = 0;
    while i < v.len()
        invariant
            i <= v.len(),
            out.len() == i,
            forall|j: int| 0 <= j < i ==> (#[trigger] out@[j])@ == v@[j]@,
        decreases v.len() - i,
    {
        out.push(v[i].clone());
        i = i + 1;
    }
    assert(string_views(out@) =~= string_views(v@));
    out
}

/// Where a guest path leads below the sandbox.
pub fn host_parts(guest: &str) -> (r: Vec<String>)
    ensures
        string_views(r@) == sandbox_parts(guest@),
{
    let s = chars_of(guest);
    let n: usize = s.len();
    let mut from: usize = 0;
    assert(s@.skip(0) =~= s@);
    while n - from >= 4 && s[from] == '\\' && s[from + 1] == '\\' && s[from + 2] == '?' && s[from
        + 3] == '\\'
        invariant
            from <= n == s.len(),
            without_verbatim(s@.skip(from as int)) == without_verbatim(guest@),
        decreases n - from,
    {
        proof {
            let t = s@.skip(from as int);
            assert(t.take(4) =~= verbatim());
            assert(t.skip(4) =~= s@.skip(from + 4));
        }
        from = from + 4;
    }
    proof {
        let t = s@.skip(from as int);
        if starts_with(t, verbatim()) {
            assert(t.take(4)[0] == t[0] && t.take(4)[1] == t[1] && t.take(4)[2] == t[2]
                && t.take(4)[3] == t[3]);
            assert(t[0] == s@[from as int] && t[1] == s@[from + 1] && t[2] == s@[from + 2] && t[3]
                == s@[from + 3]);
        }
        assert(without_verbatim(guest@) == t);
    }
    let ghost all = s@.skip(from as int);
    let mut out: Vec<String> = Vec::new();
    let mut start: usize = from;
    assert(string_views(out@) + kept_parts(all) =~= kept_parts(all));
    loop
        invariant
            start <= n == s.len(),
            all == without_verbatim(guest@),
            string_views(out@) + kept_parts(s@.skip(start as int)) == kept_parts(all),
        decreases n - start,
    {
        let ghost rest = s@.skip(start as int);
        let mut end: usize = start;
        while end < n && s[end] != '\\' && s[end] != '/'
            invariant
                start <= end <= n == s.len(),
                rest == s@.skip(start as int),
                upto_slash(rest) == s@.subrange(start as int, end as int) + upto_slash(
                    s@.skip(end as int),
                ),
            decreases n - end,
        {
            proof {
                let t = s@.skip(end as int);
                assert(t.drop_first() =~= s@.skip(end + 1));
                assert(s@.subrange(start as int, end as int) + (seq![t[0]] + upto_slash(
                    s@.skip(end + 1),
                )) =~= s@.subrange(start as int, end + 1) + upto_slash(s@.skip(end + 1)));
            }
            end = end + 1;
        }
        let mut c = sub_chars(&s, start, end);
        proof {
            let t = s@.skip(end as int);
            assert(upto_slash(t) =~= Seq::empty());
            assert(upto_slash(rest) =~= c@);
        }
        let ghost whole = c@;
        let ghost before = string_views(out@);
        if c.len() > 0 && c[c.len() - 1] == ':' {
            c.truncate(c.len() - 1);
            assert(c@ =~= whole.drop_last());
        }
        let keep: bool = !(c.len() == 0 || (c.len() == 1 && c[0] == '.') || (c.len() == 2 && c[0]
            == '.' && c[1] == '.'));
        proof {
            if c.len() == 1 {
                assert((c@ =~= seq!['.']) == (c@[0] == '.'));
            }
            if c.len() == 2 {
                assert((c@ =~= seq!['.', '.']) == (c@[0] == '.' && c@[1] == '.'));
            }
            assert(keep == host_part(whole) is Some);
        }
        if keep {
            out.push(string_of(&c));
        }
        proof {
            assert(string_views(out@) =~= before + part_list(whole));
        }
        if end >= n {
            assert(kept_parts(rest) == part_list(whole));
            return out;
        }
        proof {
            assert(rest.skip(whole.len() as int + 1) =~= s@.skip(end + 1));
            assert(kept_parts(rest) == part_list(whole) + kept_parts(s@.skip(end + 1)));
            assert(before + (part_list(whole) + kept_parts(s@.skip(end + 1))) =~= string_views(
                out@,
            ) + kept_parts(s@.skip(end + 1)));
        }
        start = end + 1;
    }
}

// ---- names ------------------------------------------------------------------

/// A path with every separator a backslash.
pub open spec fn backslashed(s: Seq<char>) -> Seq<char> {
    Seq::new(
        s.len(),
        |i: int|
            if s[i] == '/' {
                '\\'
            } else {
                s[i]
            },
    )
}

/// Whether a path starts with a drive.
pub open spec fn has_drive(n: Seq<char>) -> bool {
    n.len() >= 2 && (n[0] as u32) < 0x80 && n[1] == ':'
}

/// The absolute form of a path: with a drive or of a share it stays, else it
/// lies below `C:\`.
pub open spec fn full_path(name: Seq<char>) -> Seq<char> {
    let n = backslashed(name);
    if has_drive(n) || (n.len() >= 2 && n[0] == '\\' && n[1] == '\\') {
        n
    } else {
        seq!['C', ':', '\\'] + trimmed(n)
    }
}

/// The absolute form of a path.
pub fn full_path_name(name: &str) -> (r: String)
    ensures
        r@ == full_path(name@),
{
    let mut n = chars_of(name);
    let mut i: usize = 0;
    while i < n.len()
        invariant
            i <= n.len(),
            n.len() == name@.len(),
            forall|j: int| 0 <= j < i ==> #[trigger] n@[j] == backslashed(name@)[j],
            forall|j: int| i <= j < n.len() ==> #[trigger] n@[j] == name@[j],
        decreases n.len() - i,
    {
        if n[i] == '/' {
            n.set(i, '\\');
        }
        i = i + 1;
    }
    assert(n@ =~= backslashed(name@));
    if n.len() >= 2 && (((n[0] as u32) < 0x80 && n[1] == ':') || (n[0] == '\\' && n[1] == '\\')) {
        return string_of(&n);
    }
    let mut from: usize = 0;
    assert(n@.skip(0) =~= n@);
    while from < n.len() && n[from] == '\\'
        invariant
            from <= n.len(),
            trimmed(n@.skip(from as int)) == trimmed(n@),
        decreases n.len() - from,
    {
        assert(n@.skip(from as int).drop_first() =~= n@.skip(from + 1));
        from = from + 1;
    }
    let mut tail = sub_chars(&n, from, n.len());
    assert(tail@ =~= n@.skip(from as int));
    let mut out: Vec<char> = vec!['C', ':', '\\'];
    out.append(&mut tail);
    assert(out@ =~= seq!['C', ':', '\\'] + trimmed(n@));
    string_of(&out)
}

/// A path without the mark of the DOS device namespace.
pub open spec fn without_device(s: Seq<char>) -> Seq<char> {
    if starts_with(s, "\\??\\"@) {
        s.skip("\\??\\"@.len() as int)
    } else if starts_with(s, "\\\\?\\"@) {
        s.skip("\\\\?\\"@.len() as int)
    } else if starts_with(s, "\\DosDevices\\"@) {
        s.skip("\\DosDevices\\"@.len() as int)
    } else if starts_with(s, "\\GLOBAL??\\"@) {
        s.skip("\\GLOBAL??\\"@.len() as int)
    } else {
        s
    }
}

/// What follows a prefix.
fn strip(s: &Vec<char>, p: &str) -> (r: Option<String>)
    ensures
        match r {
            Some(t) => starts_with(s@, p@) && t@ == s@.skip(p@.len() as int),
            None => !starts_with(s@, p@),
        },
{
    let q = chars_of(p);
    if crate::hive::has_prefix(s, &q) {
        let t = sub_chars(s, q.len(), s.len());
        assert(t@ =~= s@.skip(p@.len() as int));
        Some(string_of(&t))
    } else {
        None
    }
}

/// A path without the mark of the DOS device namespace.
pub fn strip_nt_prefix(name: &str) -> (r: String)
    ensures
        r@ == without_device(name@),
{
    let s = chars_of(name);
    if let Some(t) = strip(&s, "\\??\\") {
        return t;
    }
    if let Some(t) = strip(&s, "\\\\?\\") {
        return t;
    }
    if let Some(t) = strip(&s, "\\DosDevices\\") {
        return t;
    }
    if let Some(t) = strip(&s, "\\GLOBAL??\\") {
        return t;
    }
    string_of(&s)
}

/// A path below a directory.
pub open spec fn joined(dir: Seq<char>, name: Seq<char>) -> Seq<char> {
    if (dir.len() > 0 && dir.last() == '\\') || name.len() == 0 {
        dir + name
    } else {
        dir + seq!['\\'] + name
    }
}

/// A path below a directory.
pub fn join_path(dir: &str, name: &str) -> (r: String)
    ensures
        r@ == joined(dir@, name@),
{
    let mut out = chars_of(dir);
    let n = chars_of(name);
    if !(out.len() > 0 && out[out.len() - 1] == '\\') && n.len() > 0 {
        out.push('\\');
    }
    append_str(&mut out, name);
    assert(out@ =~= joined(dir@, name@));
    string_of(&out)
}

/// The first three characters of a text.
pub open spec fn first_three(s: Seq<char>) -> Seq<char> {
    if s.len() > 3 {
        s.take(3)
    } else {
        s
    }
}

/// The name of temporary file number `u`: directory, three characters of the
/// prefix, the low 16 bits of the number in hexadecimal, and `.TMP`.
pub open spec fn temp_name(dir: Seq<char>, prefix: Seq<char>, u: u32) -> Seq<char> {
    let base = if dir.len() > 0 && dir.last() == '\\' {
        dir
    } else {
        dir.push('\\')
    };
    base + first_three(prefix) + numeral((u % 0x1_0000) as nat, 16) + ".TMP"@
}

/// The name of temporary file number `u`.
pub fn make_temp_name(dir: &str, prefix: &str, u: u32) -> (r: String)
    ensures
        r@ == temp_name(dir@, prefix@, u),
{
    let mut out = chars_of(dir);
    if !(out.len() > 0 && out[out.len() - 1] == '\\') {
        out.push('\\');
    }
    let mut p = chars_of(prefix);
    if p.len() > 3 {
        p.truncate(3);
    }
    assert(p@ =~= first_three(prefix@));
    out.append(&mut p);
    let mut digits = numeral_chars((u % 0x1_0000) as u64, 16);
    out.append(&mut digits);
    append_str(&mut out, ".TMP");
    assert(out@ =~= temp_name(dir@, prefix@, u));
    string_of(&out)
}

/// The directory and the last component of a path.
pub open spec fn split_leaf(s: Seq<char>) -> (Seq<char>, Seq<char>) {
    let leaf = crate::ntreg::last_part(s);
    if leaf.len() == s.len() {
        (Seq::empty(), s)
    } else {
        (s.take(s.len() - leaf.len() - 1), leaf)
    }
}

/// The last part of a text is a suffix of it.
proof fn lemma_last_part(s: Seq<char>)
    ensures
        crate::ntreg::last_part(s).len() <= s.len(),
    decreases s.len(),
{
    if s.len() > 0 && s.last() != '\\' {
        lemma_last_part(s.drop_last());
    }
}

/// The directory and the last component of a path.
pub fn split_pattern(s: &str) -> (r: (String, String))
    ensures
        (r.0@, r.1@) == split_leaf(s@),
{
    let all = chars_of(s);
    let leaf = crate::ntreg::reg_leaf(s);
    proof {
        lemma_last_part(s@);
    }
    if leaf.len() == all.len() {
        let none: Vec<char> = Vec::new();
        assert(none@ =~= Seq::<char>::empty());
        (string_of(&none), string_of(&all))
    } else {
        let dir = sub_chars(&all, 0, all.len() - leaf.len() - 1);
        assert(dir@ =~= s@.take(s@.len() - leaf@.len() - 1));
        (string_of(&dir), string_of(&leaf))
    }
}

// ---- wildcards --------------------------------------------------------------

/// Whether a name matches a pattern: `*` stands for any run of characters, `?`
/// for one, and every other character for itself.
pub open spec fn glob(p: Seq<char>, n: Seq<char>) -> bool
    decreases p.len(),
{
    if p.len() == 0 {
        n.len() == 0
    } else if p[0] == '*' {
        exists|i: int| 0 <= i <= n.len() && glob(p.drop_first(), #[trigger] n.skip(i))
    } else if p[0] == '?' {
        n.len() > 0 && glob(p.drop_first(), n.drop_first())
    } else {
        n.len() > 0 && n[0] == p[0] && glob(p.drop_first(), n.drop_first())
    }
}

/// Whether a name matches a wildcard, whatever the case. `*.*` matches every
/// name, also one without a dot.
pub open spec fn wildcard(pattern: Seq<char>, name: Seq<char>) -> bool {
    let p = if pattern == "*.*"@ {
        seq!['*']
    } else {
        pattern
    };
    glob(lower_text(p), lower_text(name))
}

/// Whether `n` from `j` on matches `p` from `i` on.
fn glob_ci(p: &Vec<char>, i: usize, n: &Vec<char>, j: usize) -> (r: bool)
    requires
        i <= p.len(),
        j <= n.len(),
    ensures
        r == glob(p@.skip(i as int), n@.skip(j as int)),
    decreases p.len() - i,
{
    let ghost q = p@.skip(i as int);
    let ghost m = n@.skip(j as int);
    if i >= p.len() {
        return j >= n.len();
    }
    proof {
        assert(q.drop_first() =~= p@.skip(i + 1));
        assert(q[0] == p@[i as int]);
    }
    if p[i] == '*' {
        let mut k: usize = j;
        loop
            invariant
                i < p.len(),
                j <= k <= n.len(),
                m == n@.skip(j as int),
                q == p@.skip(i as int),
                q.len() > 0 && q[0] == '*',
                q.drop_first() == p@.skip(i + 1),
                forall|x: int| 0 <= x < k - j ==> !glob(p@.skip(i + 1), #[trigger] m.skip(x)),
            ensures
                forall|x: int|
                    0 <= x <= m.len() ==> !glob(p@.skip(i + 1), #[trigger] m.skip(x)),
            decreases n.len() - k,
        {
            assert(m.skip(k - j) =~= n@.skip(k as int));
            if glob_ci(p, i + 1, n, k) {
                assert(glob(p@.skip(i + 1), m.skip(k - j)));
                return true;
            }
            if k >= n.len() {
                break;
            }
            k = k + 1;
        }
        return false;
    }
    if j >= n.len() {
        return false;
    }
    proof {
        assert(m.drop_first() =~= n@.skip(j + 1));
        assert(m[0] == n@[j as int]);
    }
    if p[i] == '?' || n[j] == p[i] {
        glob_ci(p, i + 1, n, j + 1)
    } else {
        false
    }
}

/// Whether a name matches a wildcard, whatever the case.
pub fn glob_matches(pattern: &str, name: &str) -> (r: bool)
    ensures
        r == wildcard(pattern@, name@),
{
    let p = if str_eq(pattern, "*.*") {
        let star: Vec<char> = vec!['*'];
        assert(star@ =~= seq!['*']);
        star
    } else {
        chars_of(pattern)
    };
    let p = to_lower_chars(&p);
    let cs = chars_of(name);
    let n = to_lower_chars(&cs);
    assert(p@.skip(0) =~= p@);
    assert(n@.skip(0) =~= n@);
    glob_ci(&p, 0, &n, 0)
}

/// A star alone matches every name, and so does `*.*`.
pub proof fn lemma_star_matches_all(name: Seq<char>)
    ensures
        wildcard(seq!['*'], name),
        wildcard("*.*"@, name),
{
    let n = lower_text(name);
    let p = lower_text(seq!['*']);
    assert(p.drop_first() =~= Seq::empty());
    assert(n.skip(n.len() as int) =~= Seq::empty());
    assert(glob(p.drop_first(), n.skip(n.len() as int)));
    assert(glob(p, n));
    reveal_strlit("*.*");
    assert("*.*"@ != seq!['*']) by {
        assert("*.*"@.len() == 3);
    }
}

/// A name matches itself as a pattern.
pub proof fn lemma_name_matches_itself(name: Seq<char>)
    ensures
        wildcard(name, name),
{
    if name == "*.*"@ {
        lemma_star_matches_all(name);
    } else {
        lemma_glob_self(lower_text(name));
    }
}

/// A text matches itself as a pattern.
proof fn lemma_glob_self(s: Seq<char>)
    ensures
        glob(s, s),
    decreases s.len(),
{
    if s.len() > 0 {
        lemma_glob_self(s.drop_first());
        if s[0] == '*' {
            assert(s.skip(1) =~= s.drop_first());
            assert(glob(s.drop_first(), s.skip(1)));
        }
    }
}

} // verus!
