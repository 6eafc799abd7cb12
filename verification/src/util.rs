//! Searches in lists, address rounding, and maps keyed by strings.

use vstd::prelude::*;

use crate::text::str_eq;

verus! {

// ---- searches ---------------------------------------------------------------

/// The index of the first item that satisfies `p`.
pub open spec fn first_index<T>(s: Seq<T>, p: spec_fn(T) -> bool) -> Option<int>
    decreases s.len(),
{
    if s.len() == 0 {
        None
    } else {
        match first_index(s.drop_last(), p) {
            Some(i) => Some(i),
            None => if p(s.last()) {
                Some(s.len() - 1)
            } else {
                None
            },
        }
    }
}

/// A first index satisfies the condition, and nothing before it does.
pub proof fn lemma_first_index<T>(s: Seq<T>, p: spec_fn(T) -> bool)
    ensures
        match first_index(s, p) {
            Some(i) => 0 <= i < s.len() && p(s[i]) && forall|j: int|
                0 <= j < i ==> !p(#[trigger] s[j]),
            None => forall|j: int| 0 <= j < s.len() ==> !p(#[trigger] s[j]),
        },
    decreases s.len(),
{
    if s.len() > 0 {
        let d = s.drop_last();
        lemma_first_index(d, p);
        match first_index(d, p) {
            Some(i) => {
                assert forall|j: int| 0 <= j < i implies !p(#[trigger] s[j]) by {
                    assert(d[j] == s[j]);
                }
            },
            None => {
                assert forall|j: int| 0 <= j < s.len() - 1 implies !p(#[trigger] s[j]) by {
                    assert(d[j] == s[j]);
                }
            },
        }
    }
}

/// The first item that satisfies the condition is found.
pub proof fn lemma_first_index_is<T>(s: Seq<T>, p: spec_fn(T) -> bool, i: int)
    requires
        0 <= i < s.len(),
        p(s[i]),
        forall|j: int| 0 <= j < i ==> !p(#[trigger] s[j]),
    ensures
        first_index(s, p) == Some(i),
{
    lemma_first_index(s, p);
    let k = first_index(s, p)->0;
    if k < i {
        assert(!p(s[k]));
    }
}

/// Where no item satisfies the condition, none is found.
pub proof fn lemma_first_index_none<T>(s: Seq<T>, p: spec_fn(T) -> bool)
    requires
        forall|j: int| 0 <= j < s.len() ==> !p(#[trigger] s[j]),
    ensures
        first_index(s, p) is None,
{
    lemma_first_index(s, p);
}

// ---- rounding ---------------------------------------------------------------

/// `v` rounded up to a multiple of `a`.
pub open spec fn round_up(v: int, a: int) -> int {
    ((v + a - 1) / a) * a
}

/// `v` rounded down to a multiple of `a`.
pub open spec fn round_down(v: int, a: int) -> int {
    (v / a) * a
}

/// Rounding up reaches the least multiple at or above the value.
pub proof fn lemma_round_up(v: int, a: int)
    requires
        a > 0,
    ensures
        v <= round_up(v, a) < v + a,
        round_up(v, a) % a == 0,
        v % a == 0 ==> round_up(v, a) == v,
        forall|m: int| m % a == 0 && v <= m ==> round_up(v, a) <= #[trigger] (m * 1),
{
    let q = (v + a - 1) / a;
    vstd::arithmetic::div_mod::lemma_fundamental_div_mod(v + a - 1, a);
    vstd::arithmetic::mul::lemma_mul_is_commutative(a, q);
    vstd::arithmetic::div_mod::lemma_mod_bound(v + a - 1, a);
    vstd::arithmetic::div_mod::lemma_mod_multiples_basic(q, a);
    assert forall|m: int| m % a == 0 && v <= m implies round_up(v, a) <= #[trigger] (m * 1) by {
        lemma_multiple_gap(q * a, m, a, v);
    }
    if v % a == 0 {
        lemma_multiple_gap(q * a, v, a, v);
    }
}

/// No multiple lies strictly between a multiple and the next.
proof fn lemma_multiple_gap(r: int, m: int, a: int, v: int)
    requires
        a > 0,
        r % a == 0,
        m % a == 0,
        r < v + a,
        v <= m,
    ensures
        r <= m,
{
    vstd::arithmetic::div_mod::lemma_fundamental_div_mod(r, a);
    vstd::arithmetic::div_mod::lemma_fundamental_div_mod(m, a);
    let x = r / a;
    let y = m / a;
    assert(r == a * x && m == a * y);
    if r > m {
        assert(x > y) by (nonlinear_arith)
            requires
                a > 0,
                a * x > a * y,
        ;
        assert(a * x >= a * y + a) by (nonlinear_arith)
            requires
                a > 0,
                x >= y + 1,
        ;
    }
}

/// `v` rounded up to a multiple of `a`, where that fits in 64 bits.
pub fn align_up(v: u64, a: u64) -> (r: Option<u64>)
    requires
        a > 0,
    ensures
        r == (if round_up(v as int, a as int) <= u64::MAX {
            Some(round_up(v as int, a as int) as u64)
        } else {
            None
        }),
{
    proof {
        lemma_round_up(v as int, a as int);
        vstd::arithmetic::div_mod::lemma_fundamental_div_mod(v as int, a as int);
    }
    let rem: u64 = v % a;
    proof {
        if rem != 0 {
            let t = v - rem + a;
            vstd::arithmetic::div_mod::lemma_mod_multiples_basic(v as int / a as int + 1, a as int);
            vstd::arithmetic::mul::lemma_mul_is_distributive_add(
                a as int,
                v as int / a as int,
                1,
            );
            vstd::arithmetic::mul::lemma_mul_is_commutative(
                a as int,
                v as int / a as int + 1,
            );
            assert(t % a as int == 0);
            vstd::arithmetic::div_mod::lemma_mod_bound(v as int, a as int);
            assert(round_up(v as int, a as int) <= t * 1);
            lemma_multiple_gap(t, round_up(v as int, a as int), a as int, v as int);
        }
    }
    if rem == 0 {
        Some(v)
    } else if v - rem > u64::MAX - a {
        None
    } else {
        Some(v - rem + a)
    }
}

/// `v` rounded down to a multiple of `a`.
pub fn align_down(v: u64, a: u64) -> (r: u64)
    requires
        a > 0,
    ensures
        r == round_down(v as int, a as int),
        r <= v,
{
    proof {
        vstd::arithmetic::div_mod::lemma_fundamental_div_mod(v as int, a as int);
        vstd::arithmetic::mul::lemma_mul_is_commutative(a as int, v as int / a as int);
    }
    v - v % a
}

/// The larger of two numbers.
pub open spec fn max_int(a: int, b: int) -> int {
    if a < b {
        b
    } else {
        a
    }
}

/// The smaller of two numbers.
pub open spec fn min_int(a: int, b: int) -> int {
    if a < b {
        a
    } else {
        b
    }
}

// ---- maps keyed by strings --------------------------------------------------

/// A map keyed by strings, in the order of first insertion.
pub struct StrMap<V> {
    entries: Vec<(String, V)>,
}

/// The condition that an entry has the key `k`.
pub open spec fn has_key<V>(k: Seq<char>) -> spec_fn((String, V)) -> bool {
    |e: (String, V)| e.0@ == k
}

/// The map that a list of entries stands for.
pub open spec fn entries_map<V>(s: Seq<(String, V)>) -> Map<Seq<char>, V> {
    Map::new(
        |k: Seq<char>| first_index(s, has_key::<V>(k)) is Some,
        |k: Seq<char>| s[first_index(s, has_key::<V>(k))->0].1,
    )
}

impl<V> View for StrMap<V> {
    type V = Map<Seq<char>, V>;

    closed spec fn view(&self) -> Map<Seq<char>, V> {
        entries_map(self.entries@)
    }
}

impl<V> StrMap<V> {
    #[verifier::type_invariant]
    spec fn inv(self) -> bool {
        forall|i: int, j: int|
            0 <= i < j < self.entries@.len() ==> (#[trigger] self.entries@[i]).0@ != (
            #[trigger] self.entries@[j]).0@
    }

    /// The keys, in the order of first insertion.
    pub closed spec fn keys(&self) -> Seq<Seq<char>> {
        Seq::new(self.entries@.len(), |i: int| self.entries@[i].0@)
    }

    /// A map without entries.
    pub fn new() -> (m: StrMap<V>)
        ensures
            m@ == Map::<Seq<char>, V>::empty(),
            m.keys() == Seq::<Seq<char>>::empty(),
    {
        let m = StrMap { entries: Vec::new() };
        assert(m@ =~= Map::<Seq<char>, V>::empty());
        assert(m.keys() =~= Seq::<Seq<char>>::empty());
        m
    }

    /// The number of entries.
    pub fn len(&self) -> (n: usize)
        ensures
            n == self.keys().len(),
    {
        self.entries.len()
    }

    /// Every key is listed once, and the listed keys are the map's.
    pub fn keys_listed(&self)
        ensures
            self.keys().no_duplicates(),
            forall|k: Seq<char>| #[trigger] self.keys().contains(k) <==> self@.contains_key(k),
    {
        proof {
            use_type_invariant(self);
            assert forall|k: Seq<char>| #[trigger] self.keys().contains(k) implies self@.contains_key(
                k,
            ) by {
                let i = choose|i: int| 0 <= i < self.keys().len() && self.keys()[i] == k;
                lemma_first_index(self.entries@, has_key::<V>(k));
                assert(has_key::<V>(k)(self.entries@[i]));
            }
            assert forall|k: Seq<char>| self@.contains_key(k) implies #[trigger] self.keys().contains(
                k,
            ) by {
                lemma_first_index(self.entries@, has_key::<V>(k));
                let i = first_index(self.entries@, has_key::<V>(k))->0;
                assert(self.keys()[i] == k);
            }
        }
    }

    /// The key at position `i`.
    pub fn key_at(&self, i: usize) -> (k: &String)
        requires
            i < self.keys().len(),
        ensures
            k@ == self.keys()[i as int],
    {
        &self.entries[i].0
    }

    /// The value at position `i`.
    pub fn value_at(&self, i: usize) -> (v: &V)
        requires
            i < self.keys().len(),
        ensures
            self@.contains_key(self.keys()[i as int]),
            *v == self@[self.keys()[i as int]],
    {
        proof {
            use_type_invariant(self);
            let k = self.keys()[i as int];
            assert(has_key::<V>(k)(self.entries@[i as int]));
            assert forall|j: int| 0 <= j < i implies !has_key::<V>(k)(
                #[trigger] self.entries@[j],
            ) by {}
            lemma_first_index_is(self.entries@, has_key::<V>(k), i as int);
        }
        &self.entries[i].1
    }

    /// The position of a key.
    fn find(&self, key: &str) -> (r: Option<usize>)
        ensures
            match r {
                Some(i) => i < self.entries.len() && self.entries@[i as int].0@ == key@
                    && first_index(self.entries@, has_key::<V>(key@)) == Some(i as int),
                None => first_index(self.entries@, has_key::<V>(key@)) is None,
            },
    {
        let mut i: usize = 0;
        while i < self.entries.len()
            invariant
                i <= self.entries.len(),
                forall|j: int| 0 <= j < i ==> (#[trigger] self.entries@[j]).0@ != key@,
            decreases self.entries.len() - i,
        {
            if str_eq(self.entries[i].0.as_str(), key) {
                proof {
                    lemma_first_index_is(self.entries@, has_key::<V>(key@), i as int);
                }
                return Some(i);
            }
            i = i + 1;
        }
        proof {
            lemma_first_index_none(self.entries@, has_key::<V>(key@));
        }
        None
    }

    /// Whether a key has an entry.
    pub fn contains_key(&self, key: &str) -> (r: bool)
        ensures
            r == self@.contains_key(key@),
    {
        self.find(key).is_some()
    }

    /// The value of a key.
    pub fn get(&self, key: &str) -> (r: Option<&V>)
        ensures
            match r {
                Some(v) => self@.contains_key(key@) && *v == self@[key@],
                None => !self@.contains_key(key@),
            },
    {
        match self.find(key) {
            Some(i) => Some(&self.entries[i].1),
            None => None,
        }
    }

    /// Give a key a value; a new key is listed last.
    pub fn insert(&mut self, key: String, value: V) -> (prev: Option<V>)
        ensures
            final(self)@ == old(self)@.insert(key@, value),
            final(self).keys() == (if old(self)@.contains_key(key@) {
                old(self).keys()
            } else {
                old(self).keys().push(key@)
            }),
            prev == (if old(self)@.contains_key(key@) {
                Some(old(self)@[key@])
            } else {
                None
            }),
    {
        proof {
            use_type_invariant(&*self);
        }
        let ghost m = self@;
        let ghost ks = self.keys();
        let ghost s = self.entries@;
        let found = self.find(key.as_str());
        let mut entries: Vec<(String, V)> = Vec::new();
        std::mem::swap(&mut entries, &mut self.entries);
        let prev: Option<V>;
        proof {
            lemma_first_index(s, has_key::<V>(key@));
        }
        match found {
            Some(i) => {
                let ghost e = (key, value);
                let (_k, v) = entries.remove(i);
                entries.insert(i, (key, value));
                prev = Some(v);
                proof {
                    assert(entries@ =~= s.update(i as int, e));
                    lemma_entries_update(s, i as int, e);
                }
            },
            None => {
                let ghost e = (key, value);
                entries.push((key, value));
                prev = None;
                proof {
                    assert(entries@ =~= s.push(e));
                    lemma_entries_push(s, e);
                }
            },
        }
        self.entries = entries;
        assert(self.keys() =~= if m.contains_key(key@) {
            ks
        } else {
            ks.push(key@)
        });
        prev
    }

    /// Drop a key.
    pub fn remove(&mut self, key: &str) -> (prev: Option<V>)
        ensures
            final(self)@ == old(self)@.remove(key@),
            prev == (if old(self)@.contains_key(key@) {
                Some(old(self)@[key@])
            } else {
                None
            }),
            !old(self)@.contains_key(key@) ==> final(self).keys() == old(self).keys(),
            old(self)@.contains_key(key@) ==> exists|i: int|
                0 <= i < old(self).keys().len() && old(self).keys()[i] == key@ && final(self).keys()
                    == #[trigger] old(self).keys().remove(i),
    {
        proof {
            use_type_invariant(&*self);
        }
        let ghost m = self@;
        let ghost s = self.entries@;
        let ghost ks = self.keys();
        match self.find(key) {
            Some(i) => {
                let mut entries: Vec<(String, V)> = Vec::new();
                std::mem::swap(&mut entries, &mut self.entries);
                let (_k, v) = entries.remove(i);
                proof {
                    lemma_entries_remove(s, i as int);
                }
                self.entries = entries;
                assert(self.keys() =~= ks.remove(i as int));
                assert(ks[i as int] == key@);
                Some(v)
            },
            None => {
                assert(m =~= m.remove(key@));
                None
            },
        }
    }
}

/// Keys that occur once.
pub open spec fn distinct_keys<V>(s: Seq<(String, V)>) -> bool {
    forall|i: int, j: int|
        0 <= i < j < s.len() ==> (#[trigger] s[i]).0@ != (#[trigger] s[j]).0@
}

/// With distinct keys, a key's map value is that of its entry.
proof fn lemma_entries_at<V>(s: Seq<(String, V)>, i: int)
    requires
        distinct_keys(s),
        0 <= i < s.len(),
    ensures
        first_index(s, has_key::<V>(s[i].0@)) == Some(i),
{
    let k = s[i].0@;
    assert forall|j: int| 0 <= j < i implies !has_key::<V>(k)(#[trigger] s[j]) by {}
    lemma_first_index_is(s, has_key::<V>(k), i);
}

/// Replacing an entry's value updates the map.
proof fn lemma_entries_update<V>(s: Seq<(String, V)>, i: int, e: (String, V))
    requires
        distinct_keys(s),
        0 <= i < s.len(),
        s[i].0@ == e.0@,
    ensures
        distinct_keys(s.update(i, e)),
        entries_map(s.update(i, e)) == entries_map(s).insert(e.0@, e.1),
{
    let t = s.update(i, e);
    lemma_entries_at(s, i);
    lemma_entries_at(t, i);
    assert forall|k: Seq<char>| #[trigger]
        first_index(t, has_key::<V>(k)) == first_index(s, has_key::<V>(k)) by {
        lemma_first_index(s, has_key::<V>(k));
        match first_index(s, has_key::<V>(k)) {
            Some(j) => {
                assert forall|x: int| 0 <= x < j implies !has_key::<V>(k)(#[trigger] t[x]) by {
                    assert(!has_key::<V>(k)(s[x]));
                }
                lemma_first_index_is(t, has_key::<V>(k), j);
            },
            None => {
                assert forall|x: int| 0 <= x < t.len() implies !has_key::<V>(k)(
                    #[trigger] t[x],
                ) by {
                    assert(!has_key::<V>(k)(s[x]));
                }
                lemma_first_index_none(t, has_key::<V>(k));
            },
        }
    }
    assert forall|k: Seq<char>| #[trigger] entries_map(t).contains_key(k) implies entries_map(t)[k]
        == entries_map(s).insert(e.0@, e.1)[k] by {
        lemma_first_index(s, has_key::<V>(k));
        let j = first_index(s, has_key::<V>(k))->0;
        if j != i {
            assert(k != e.0@);
        }
    }
    assert(entries_map(t) =~= entries_map(s).insert(e.0@, e.1));
}

/// Adding an entry with a new key extends the map.
proof fn lemma_entries_push<V>(s: Seq<(String, V)>, e: (String, V))
    requires
        distinct_keys(s),
        first_index(s, has_key::<V>(e.0@)) is None,
    ensures
        distinct_keys(s.push(e)),
        entries_map(s.push(e)) == entries_map(s).insert(e.0@, e.1),
{
    let t = s.push(e);
    lemma_first_index(s, has_key::<V>(e.0@));
    assert forall|i: int, j: int| 0 <= i < j < t.len() implies (#[trigger] t[i]).0@ != (
    #[trigger] t[j]).0@ by {
        if j == s.len() {
            assert(!has_key::<V>(e.0@)(s[i]));
        }
    }
    lemma_entries_at(t, s.len() as int);
    assert(t.drop_last() =~= s);
    assert forall|k: Seq<char>| k != e.0@ implies #[trigger] first_index(t, has_key::<V>(k))
        == first_index(s, has_key::<V>(k)) by {}
    assert forall|k: Seq<char>| #[trigger] entries_map(t).contains_key(k) implies entries_map(t)[k]
        == entries_map(s).insert(e.0@, e.1)[k] by {
        if k != e.0@ {
            lemma_first_index(s, has_key::<V>(k));
        }
    }
    assert(entries_map(t) =~= entries_map(s).insert(e.0@, e.1));
}

/// Removing an entry removes its key.
proof fn lemma_entries_remove<V>(s: Seq<(String, V)>, i: int)
    requires
        distinct_keys(s),
        0 <= i < s.len(),
    ensures
        distinct_keys(s.remove(i)),
        entries_map(s.remove(i)) == entries_map(s).remove(s[i].0@),
{
    let t = s.remove(i);
    let key = s[i].0@;
    assert forall|x: int, y: int| 0 <= x < y < t.len() implies (#[trigger] t[x]).0@ != (
    #[trigger] t[y]).0@ by {
        let sx = if x < i {
            x
        } else {
            x + 1
        };
        let sy = if y < i {
            y
        } else {
            y + 1
        };
        assert(s[sx].0@ != s[sy].0@);
    }
    assert forall|k: Seq<char>| #[trigger]
        entries_map(t).contains_key(k) == entries_map(s).remove(key).contains_key(k) by {
        lemma_first_index(s, has_key::<V>(k));
        lemma_first_index(t, has_key::<V>(k));
        if entries_map(t).contains_key(k) {
            let x = first_index(t, has_key::<V>(k))->0;
            let sx = if x < i {
                x
            } else {
                x + 1
            };
            assert(has_key::<V>(k)(s[sx]));
            assert(s[sx].0@ != s[i].0@);
        }
        if entries_map(s).contains_key(k) && k != key {
            let x = first_index(s, has_key::<V>(k))->0;
            let tx = if x < i {
                x
            } else {
                x - 1
            };
            assert(has_key::<V>(k)(t[tx]));
        }
    }
    assert forall|k: Seq<char>| #[trigger] entries_map(t).contains_key(k) implies entries_map(t)[k]
        == entries_map(s)[k] by {
        lemma_first_index(t, has_key::<V>(k));
        let x = first_index(t, has_key::<V>(k))->0;
        let sx = if x < i {
            x
        } else {
            x + 1
        };
        lemma_entries_at(s, sx);
    }
    assert(entries_map(t) =~= entries_map(s).remove(key));
}

} // verus!
