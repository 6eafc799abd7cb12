//! Paths and patterns: where they lead, and what they match.

use vstd::prelude::*;

use crate::ntreg::{last_part, trimmed};
use crate::path::{
    backslashed, full_path, glob, has_drive, is_plain_part, is_slash, kept_parts, lemma_upto_slash,
    part_list, split_leaf, upto_slash, wildcard,
};
use crate::text::lower_text;

verus! {

// ---- the sandbox ------------------------------------------------------------

proof fn lemma_upto_join(s: Seq<char>, sep: char, t: Seq<char>)
    requires
        is_slash(sep),
    ensures
        upto_slash(s + seq![sep] + t) == upto_slash(s),
    decreases s.len(),
{
    let j = s + seq![sep] + t;
    if s.len() > 0 && !is_slash(s[0]) {
        lemma_upto_join(s.drop_first(), sep, t);
        assert(j.drop_first() =~= s.drop_first() + seq![sep] + t);
        assert(j[0] == s[0]);
    } else if s.len() > 0 {
        assert(j[0] == s[0]);
    } else {
        assert(j[0] == sep);
    }
}

/// A path leads through its parts: where two paths are joined with a separator of either
/// kind, what the joined path leads through is what the first and then the second do.
pub proof fn lemma_joined_parts(s: Seq<char>, sep: char, t: Seq<char>)
    requires
        is_slash(sep),
    ensures
        kept_parts(s + seq![sep] + t) == kept_parts(s) + kept_parts(t),
    decreases s.len(),
{
    let j = s + seq![sep] + t;
    let c = upto_slash(s);
    lemma_upto_slash(s);
    lemma_upto_slash(j);
    lemma_upto_join(s, sep, t);
    if c.len() >= s.len() {
        assert(j.skip(c.len() as int + 1) =~= t);
    } else {
        let r = s.skip(c.len() as int + 1);
        assert(j.skip(c.len() as int + 1) =~= r + seq![sep] + t);
        lemma_joined_parts(r, sep, t);
        assert(part_list(c) + (kept_parts(r) + kept_parts(t)) =~= (part_list(c) + kept_parts(r))
            + kept_parts(t));
    }
}

/// Both characters that separate the parts of a path do.
pub proof fn lemma_separators()
    ensures
        is_slash('/'),
        is_slash('\\'),
        forall|c: char| #[trigger] is_slash(c) ==> c == '/' || c == '\\',
{
}

/// A part that names an entry is kept as it is, a drive without its colon; what names the
/// directory itself or its parent is left out.
pub proof fn lemma_single_part(c: Seq<char>, drive: char)
    requires
        forall|i: int| 0 <= i < c.len() ==> !is_slash(#[trigger] c[i]),
        !is_slash(drive),
        drive != '.',
        drive != ':',
    ensures
        is_plain_part(c) && c.last() != ':' ==> kept_parts(c) == seq![c],
        kept_parts(seq!['.']) == Seq::<Seq<char>>::empty(),
        kept_parts(seq!['.', '.']) == Seq::<Seq<char>>::empty(),
        kept_parts(seq![drive, ':']) == seq![seq![drive]],
{
    lemma_no_slash(c);
    let d = seq!['.'];
    let e = seq!['.', '.'];
    let f = seq![drive, ':'];
    lemma_no_slash(d);
    lemma_no_slash(e);
    lemma_no_slash(f);
    assert(f.drop_last() =~= seq![drive]);
    assert(seq![drive][0] != seq!['.'][0]);
    assert(f.last() == ':');
    assert(d.last() == '.' && e.last() == '.');
    assert(seq![drive].len() == 1 && e.len() == 2);
}

proof fn lemma_no_slash(c: Seq<char>)
    requires
        forall|i: int| 0 <= i < c.len() ==> !is_slash(#[trigger] c[i]),
    ensures
        upto_slash(c) == c,
    decreases c.len(),
{
    if c.len() > 0 {
        let d = c.drop_first();
        assert forall|i: int| 0 <= i < d.len() implies !is_slash(#[trigger] d[i]) by {
            assert(d[i] == c[i + 1]);
        }
        assert(!is_slash(c[0]));
        lemma_no_slash(d);
        assert(seq![c[0]] + d =~= c);
    }
}

// ---- names ------------------------------------------------------------------

/// The absolute form of a path starts at a drive or a share, and is its own absolute form; it
/// has no forward slash.
pub proof fn lemma_absolute(name: Seq<char>)
    ensures
        ({
            let p = full_path(name);
            &&& p.len() >= 2
            &&& p[1] == ':' || (p[0] == '\\' && p[1] == '\\')
            &&& full_path(p) == p
        }),
{
    let n = backslashed(name);
    let p = full_path(name);
    lemma_trimmed_has_no_slash(n);
    assert(forall|i: int| 0 <= i < n.len() ==> (#[trigger] n[i]) != '/');
    assert forall|i: int| 0 <= i < p.len() implies (#[trigger] p[i]) != '/' by {
        if !(has_drive(n) || (n.len() >= 2 && n[0] == '\\' && n[1] == '\\')) && i >= 3 {
            assert(p[i] == trimmed(n)[i - 3]);
        }
    }
    assert(backslashed(p) =~= p);
}

proof fn lemma_trimmed_has_no_slash(n: Seq<char>)
    requires
        forall|i: int| 0 <= i < n.len() ==> (#[trigger] n[i]) != '/',
    ensures
        forall|i: int| 0 <= i < trimmed(n).len() ==> (#[trigger] trimmed(n)[i]) != '/',
    decreases n.len(),
{
    if n.len() > 0 && n[0] == '\\' {
        let d = n.drop_first();
        assert forall|i: int| 0 <= i < d.len() implies (#[trigger] d[i]) != '/' by {
            assert(d[i] == n[i + 1]);
        }
        lemma_trimmed_has_no_slash(d);
        assert(trimmed(n) == trimmed(d));
    } else {
        assert(trimmed(n) == n);
    }
}

/// The directory and the last part of a pattern make up the pattern, and the last part has no
/// separator.
pub proof fn lemma_splits(s: Seq<char>)
    ensures
        ({
            let (dir, leaf) = split_leaf(s);
            &&& forall|i: int| 0 <= i < leaf.len() ==> (#[trigger] leaf[i]) != '\\'
            &&& leaf.len() <= s.len()
            &&& leaf.len() < s.len() ==> dir + seq!['\\'] + leaf == s
            &&& leaf.len() == s.len() ==> leaf == s && dir.len() == 0
        }),
{
    lemma_last(s);
    let (dir, leaf) = split_leaf(s);
    if leaf.len() < s.len() {
        assert(dir + seq!['\\'] + leaf =~= s);
    } else {
        assert(s.skip(0) =~= s);
        assert(last_part(s) == s);
    }
}

proof fn lemma_last(s: Seq<char>)
    ensures
        last_part(s).len() <= s.len(),
        last_part(s) == s.skip(s.len() - last_part(s).len()),
        forall|i: int| 0 <= i < last_part(s).len() ==> (#[trigger] last_part(s)[i]) != '\\',
        last_part(s).len() < s.len() ==> s[s.len() - last_part(s).len() - 1] == '\\',
    decreases s.len(),
{
    if s.len() > 0 && s.last() != '\\' {
        lemma_last(s.drop_last());
        assert(last_part(s) =~= s.skip(s.len() - last_part(s).len()));
    } else {
        assert(s.skip(s.len() as int) =~= Seq::<char>::empty());
    }
}

// ---- wildcards --------------------------------------------------------------

/// A pattern without wildcards matches the name that it is, and no other, whatever the case.
pub proof fn lemma_matches_itself_alone(p: Seq<char>, n: Seq<char>)
    requires
        forall|i: int|
            0 <= i < lower_text(p).len() ==> (#[trigger] lower_text(p)[i]) != '*' && lower_text(
                p,
            )[i] != '?',
        p != "*.*"@,
    ensures
        wildcard(p, n) <==> lower_text(p) == lower_text(n),
{
    lemma_literal(lower_text(p), lower_text(n));
}

proof fn lemma_literal(p: Seq<char>, n: Seq<char>)
    requires
        forall|i: int| 0 <= i < p.len() ==> (#[trigger] p[i]) != '*' && p[i] != '?',
    ensures
        glob(p, n) <==> p == n,
    decreases p.len(),
{
    if p.len() > 0 {
        assert(p[0] != '*' && p[0] != '?');
        if n.len() > 0 {
            let d = p.drop_first();
            assert forall|i: int| 0 <= i < d.len() implies (#[trigger] d[i]) != '*' && d[i]
                != '?' by {
                assert(d[i] == p[i + 1]);
            }
            lemma_literal(d, n.drop_first());
            if p[0] == n[0] && d == n.drop_first() {
                assert(p =~= seq![p[0]] + d);
                assert(n =~= seq![n[0]] + n.drop_first());
            }
        }
    } else {
        if n.len() == 0 {
            assert(p =~= n);
        }
    }
}

/// A question mark stands for one character and a star for any number of them.
pub proof fn lemma_wildcards(p: Seq<char>, n: Seq<char>, x: char, k: int)
    ensures
        glob(seq!['?'] + p, seq![x] + n) <==> glob(p, n),
        !glob(seq!['?'] + p, Seq::empty()),
        0 <= k <= n.len() && glob(p, n.skip(k)) ==> glob(seq!['*'] + p, n),
        glob(seq!['*'] + p, n) ==> exists|i: int| 0 <= i <= n.len() && glob(p, #[trigger] n.skip(i)),
{
    let q = seq!['?'] + p;
    let m = seq![x] + n;
    assert(q.drop_first() =~= p);
    assert(m.drop_first() =~= n);
    assert(q[0] == '?');
    let s = seq!['*'] + p;
    assert(s.drop_first() =~= p);
    assert(s[0] == '*');
}

} // verus!
