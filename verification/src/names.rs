//! Sets of names in ascending order.

use vstd::prelude::*;

verus! {

/// Whether `a` comes before `b`: by the first character that differs, a prefix
/// first.
pub open spec fn text_before(a: Seq<char>, b: Seq<char>) -> bool
    decreases a.len(),
{
    if b.len() == 0 {
        false
    } else if a.len() == 0 {
        true
    } else if a[0] != b[0] {
        (a[0] as u32) < (b[0] as u32)
    } else {
        text_before(a.drop_first(), b.drop_first())
    }
}

/// No text comes before itself.
pub proof fn lemma_before_irreflexive(a: Seq<char>)
    ensures
        !text_before(a, a),
    decreases a.len(),
{
    if a.len() > 0 {
        lemma_before_irreflexive(a.drop_first());
    }
}

/// The order is transitive.
pub proof fn lemma_before_transitive(a: Seq<char>, b: Seq<char>, c: Seq<char>)
    requires
        text_before(a, b),
        text_before(b, c),
    ensures
        text_before(a, c),
    decreases a.len(),
{
    if a.len() > 0 && a[0] == b[0] && b[0] == c[0] {
        lemma_before_transitive(a.drop_first(), b.drop_first(), c.drop_first());
    }
}

/// Of two different texts one comes before the other.
pub proof fn lemma_before_total(a: Seq<char>, b: Seq<char>)
    ensures
        text_before(a, b) || text_before(b, a) || a == b,
    decreases a.len(),
{
    if a.len() > 0 && b.len() > 0 {
        vstd::utf8::char_u32_cast(a[0], a[0] as u32);
        vstd::utf8::char_u32_cast(b[0], b[0] as u32);
    }
    if a.len() == 0 {
        if b.len() == 0 {
            assert(a =~= b);
        }
    } else if b.len() > 0 && a[0] == b[0] {
        lemma_before_total(a.drop_first(), b.drop_first());
        if a.drop_first() == b.drop_first() {
            assert(a =~= seq![a[0]] + a.drop_first());
            assert(b =~= seq![b[0]] + b.drop_first());
        }
    }
}

/// Whether `a` comes before `b`.
pub fn is_before(a: &Vec<char>, b: &Vec<char>) -> (r: bool)
    ensures
        r == text_before(a@, b@),
{
    let mut i: usize = 0;
    assert(a@.skip(0) =~= a@);
    assert(b@.skip(0) =~= b@);
    loop
        invariant
            i <= a.len(),
            i <= b.len(),
            text_before(a@, b@) == text_before(a@.skip(i as int), b@.skip(i as int)),
        decreases a.len() - i,
    {
        if i >= b.len() {
            return false;
        }
        if i >= a.len() {
            return true;
        }
        let x: char = a[i];
        let y: char = b[i];
        proof {
            let p = a@.skip(i as int);
            let q = b@.skip(i as int);
            assert(p[0] == x && q[0] == y);
            assert(p.drop_first() =~= a@.skip(i + 1));
            assert(q.drop_first() =~= b@.skip(i + 1));
        }
        if x != y {
            return (x as u32) < (y as u32);
        }
        i = i + 1;
    }
}

/// The texts of a list.
pub open spec fn name_views(v: Seq<Vec<char>>) -> Seq<Seq<char>> {
    Seq::new(v.len(), |i: int| v[i]@)
}

/// Whether a list ascends without repeats.
pub open spec fn ascending(s: Seq<Seq<char>>) -> bool {
    forall|i: int, j: int| 0 <= i < j < s.len() ==> text_before(#[trigger] s[i], #[trigger] s[j])
}

/// Whether a list holds exactly the names of a set, in ascending order.
pub open spec fn is_listing(s: Seq<Seq<char>>, names: Set<Seq<char>>) -> bool {
    &&& ascending(s)
    &&& forall|x: Seq<char>| #[trigger] s.contains(x) <==> names.contains(x)
}

/// The names of a set in ascending order.
pub open spec fn listing(names: Set<Seq<char>>) -> Seq<Seq<char>> {
    choose|s: Seq<Seq<char>>| is_listing(s, names)
}

/// A set of names has one listing.
pub proof fn lemma_listing_unique(s: Seq<Seq<char>>, t: Seq<Seq<char>>, names: Set<Seq<char>>)
    requires
        is_listing(s, names),
        is_listing(t, names),
    ensures
        s == t,
    decreases s.len(),
{
    if s.len() == 0 {
        if t.len() > 0 {
            assert(t.contains(t[0]));
            assert(s.contains(t[0]));
        }
        assert(s =~= t);
    } else {
        let x = s.last();
        assert(s.contains(x));
        assert(t.contains(x));
        let y = t.last();
        assert(t.contains(y));
        assert(s.contains(y));
        let i = choose|i: int| 0 <= i < s.len() && s[i] == y;
        let j = choose|j: int| 0 <= j < t.len() && t[j] == x;
        if x != y {
            assert(text_before(s[i], s[s.len() - 1]));
            assert(text_before(t[j], t[t.len() - 1]));
            lemma_before_transitive(x, y, x);
            lemma_before_irreflexive(x);
        }
        let rest = names.remove(x);
        assert forall|z: Seq<char>| #[trigger] s.drop_last().contains(z) <==> rest.contains(z) by {
            if s.drop_last().contains(z) {
                let k = choose|k: int| 0 <= k < s.len() - 1 && s[k] == z;
                assert(s.contains(z));
                assert(text_before(s[k], s[s.len() - 1]));
                lemma_before_irreflexive(x);
            }
            if rest.contains(z) {
                assert(s.contains(z));
                let k = choose|k: int| 0 <= k < s.len() && s[k] == z;
                assert(s.drop_last()[k] == z);
            }
        }
        assert forall|z: Seq<char>| #[trigger] t.drop_last().contains(z) <==> rest.contains(z) by {
            if t.drop_last().contains(z) {
                let k = choose|k: int| 0 <= k < t.len() - 1 && t[k] == z;
                assert(t.contains(z));
                assert(text_before(t[k], t[t.len() - 1]));
                lemma_before_irreflexive(x);
            }
            if rest.contains(z) {
                assert(t.contains(z));
                let k = choose|k: int| 0 <= k < t.len() && t[k] == z;
                assert(t.drop_last()[k] == z);
            }
        }
        lemma_listing_unique(s.drop_last(), t.drop_last(), rest);
        assert(s =~= s.drop_last().push(x));
        assert(t =~= t.drop_last().push(y));
    }
}

/// A listing is the listing.
pub proof fn lemma_listing(s: Seq<Seq<char>>, names: Set<Seq<char>>)
    requires
        is_listing(s, names),
    ensures
        s == listing(names),
{
    lemma_listing_unique(s, listing(names), names);
}

/// Add a name to a listing.
pub fn insert_name(v: &mut Vec<Vec<char>>, name: Vec<char>, Ghost(names): Ghost<Set<Seq<char>>>)
    requires
        is_listing(name_views(old(v)@), names),
    ensures
        is_listing(name_views(final(v)@), names.insert(name@)),
{
    let ghost s = name_views(v@);
    let mut i: usize = 0;
    while i < v.len() && is_before(&v[i], &name)
        invariant
            i <= v.len(),
            s == name_views(v@),
            *v == *old(v),
            forall|k: int| 0 <= k < i ==> text_before(#[trigger] s[k], name@),
        decreases v.len() - i,
    {
        i = i + 1;
    }
    if i < v.len() && crate::text::chars_eq(&v[i], &name) {
        proof {
            assert(s[i as int] == name@);
            assert(s.contains(name@));
            assert(names.insert(name@) =~= names);
        }
        return;
    }
    let ghost nm = name@;
    v.insert(i, name);
    proof {
        let t = name_views(v@);
        assert(t =~= s.insert(i as int, nm));
        if i < s.len() {
            lemma_before_total(s[i as int], nm);
        }
        assert forall|a: int, b: int| 0 <= a < b < t.len() implies text_before(
            #[trigger] t[a],
            #[trigger] t[b],
        ) by {
            if b == i {
            } else if a == i {
                let k = b - 1;
                if k > i {
                    assert(text_before(s[i as int], s[k]));
                    lemma_before_transitive(nm, s[i as int], s[k]);
                }
            } else {
                let oa = if a < i {
                    a
                } else {
                    a - 1
                };
                let ob = if b < i {
                    b
                } else {
                    b - 1
                };
                assert(text_before(s[oa], s[ob]));
            }
        }
        assert forall|x: Seq<char>| #[trigger] t.contains(x) <==> names.insert(nm).contains(x) by {
            if t.contains(x) {
                let k = choose|k: int| 0 <= k < t.len() && t[k] == x;
                if k < i {
                    assert(s[k] == x);
                    assert(s.contains(x));
                } else if k > i {
                    assert(s[k - 1] == x);
                    assert(s.contains(x));
                }
            }
            if names.insert(nm).contains(x) {
                if x == nm {
                    assert(t[i as int] == x);
                } else {
                    assert(s.contains(x));
                    let k = choose|k: int| 0 <= k < s.len() && s[k] == x;
                    if k < i {
                        assert(t[k] == x);
                    } else {
                        assert(t[k + 1] == x);
                    }
                }
            }
        }
    }
}

} // verus!
