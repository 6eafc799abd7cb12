//! The registry hive: keys by full path, values by name, open key handles.

use vstd::prelude::*;

use std::collections::HashMap;

use crate::names::{
    insert_name, is_listing, lemma_listing, listing, name_views,
};
use crate::text::{chars_of, string_of, sub_chars, utf16, utf16_bytes, units_to_bytes, encode_utf16};
use crate::util::{first_index, lemma_first_index_is, lemma_first_index_none, StrMap};

verus! {

broadcast use vstd::std_specs::hash::group_hash_axioms;

pub const REG_SZ: u32 = 1;

pub const REG_DWORD: u32 = 4;

/// A registry value: its type and its raw bytes.
pub struct RegValue {
    pub ty: u32,
    pub data: Vec<u8>,
}

/// A registry value as mathematics.
pub struct ValueView {
    pub ty: u32,
    pub data: Seq<u8>,
}

impl View for RegValue {
    type V = ValueView;

    open spec fn view(&self) -> ValueView {
        ValueView { ty: self.ty, data: self.data@ }
    }
}

/// The values of one key, by name.
pub type Values = Map<Seq<char>, ValueView>;

/// The keys of a registry, by full path.
pub type Keys = Map<Seq<char>, Values>;

/// The views of the values of a key.
pub open spec fn value_views(m: Map<Seq<char>, RegValue>) -> Values {
    Map::new(|k: Seq<char>| m.contains_key(k), |k: Seq<char>| m[k]@)
}

/// The views of the keys of a registry.
pub open spec fn key_views(m: Map<Seq<char>, StrMap<RegValue>>) -> Keys {
    Map::new(|k: Seq<char>| m.contains_key(k), |k: Seq<char>| value_views(m[k]@))
}

/// The views of open handles.
pub open spec fn handle_views(m: Map<u64, String>) -> Map<u64, Seq<char>> {
    Map::new(|h: u64| m.contains_key(h), |h: u64| m[h]@)
}

/// The registry of a process.
pub struct Registry {
    pub keys: StrMap<StrMap<RegValue>>,
    /// The path of each open key.
    pub handles: HashMap<u64, String>,
}

/// A registry as mathematics.
#[verifier::ext_equal]
pub struct RegView {
    pub keys: Keys,
    pub handles: Map<u64, Seq<char>>,
}

impl View for Registry {
    type V = RegView;

    open spec fn view(&self) -> RegView {
        RegView { keys: key_views(self.keys@), handles: handle_views(self.handles@) }
    }
}

/// The name of a predefined root key.
pub open spec fn root_name(hkey: u64) -> Option<Seq<char>> {
    if hkey == 0x8000_0000 {
        Some("HKCR"@)
    } else if hkey == 0x8000_0001 {
        Some("HKCU"@)
    } else if hkey == 0x8000_0002 {
        Some("HKLM"@)
    } else if hkey == 0x8000_0003 {
        Some("HKU"@)
    } else if hkey == 0x8000_0005 {
        Some("HKCC"@)
    } else {
        None
    }
}

/// The name of a predefined root key.
pub fn reg_hkey_root(hkey: u64) -> (r: Option<&'static str>)
    ensures
        match r {
            Some(s) => root_name(hkey) == Some(s@),
            None => root_name(hkey) is None,
        },
{
    if hkey == 0x8000_0000 {
        Some("HKCR")
    } else if hkey == 0x8000_0001 {
        Some("HKCU")
    } else if hkey == 0x8000_0002 {
        Some("HKLM")
    } else if hkey == 0x8000_0003 {
        Some("HKU")
    } else if hkey == 0x8000_0005 {
        Some("HKCC")
    } else {
        None
    }
}

/// Whether a text starts with another.
pub open spec fn starts_with(s: Seq<char>, p: Seq<char>) -> bool {
    p.len() <= s.len() && s.take(p.len() as int) == p
}

/// Whether a text starts with another.
pub fn has_prefix(s: &Vec<char>, p: &Vec<char>) -> (r: bool)
    ensures
        r == starts_with(s@, p@),
{
    if p.len() > s.len() {
        return false;
    }
    let head = sub_chars(s, 0, p.len());
    assert(head@ =~= s@.take(p.len() as int));
    crate::text::chars_eq(&head, p)
}

/// The path of a key below another; an empty name is the key itself.
pub open spec fn key_join(base: Seq<char>, sub: Seq<char>) -> Seq<char> {
    if sub.len() == 0 {
        base
    } else {
        base + seq!['\\'] + sub
    }
}

/// The path of a key below another.
pub fn join_key(base: &str, sub: &Vec<char>) -> (r: String)
    ensures
        r@ == key_join(base@, sub@),
{
    let mut out = chars_of(base);
    if sub.len() > 0 {
        out.push('\\');
        let mut tail = crate::text::clone_chars(sub);
        out.append(&mut tail);
    }
    assert(out@ =~= key_join(base@, sub@));
    string_of(&out)
}

/// What the paths of the keys below `path` start with.
pub open spec fn below_path(path: Seq<char>) -> Seq<char> {
    path.push('\\')
}

/// The condition of being a separator.
pub open spec fn is_separator() -> spec_fn(char) -> bool {
    |c: char| c == '\\'
}

/// A text up to its first separator.
pub open spec fn first_part(s: Seq<char>) -> Seq<char> {
    match first_index(s, is_separator()) {
        Some(i) => s.take(i),
        None => s,
    }
}

/// A text from `from` on, up to its first separator.
fn part_from(s: &Vec<char>, from: usize) -> (r: Vec<char>)
    requires
        from <= s.len(),
    ensures
        r@ == first_part(s@.skip(from as int)),
{
    let ghost t = s@.skip(from as int);
    let mut i: usize = from;
    while i < s.len()
        invariant
            from <= i <= s.len(),
            t == s@.skip(from as int),
            forall|j: int| 0 <= j < i - from ==> !is_separator()(#[trigger] t[j]),
        decreases s.len() - i,
    {
        assert(t[i - from] == s@[i as int]);
        if s[i] == '\\' {
            proof {
                lemma_first_index_is(t, is_separator(), i - from);
                assert(s@.subrange(from as int, i as int) =~= t.take(i - from));
            }
            return sub_chars(s, from, i);
        }
        i = i + 1;
    }
    proof {
        lemma_first_index_none(t, is_separator());
        assert(s@.subrange(from as int, s.len() as int) =~= t);
    }
    sub_chars(s, from, s.len())
}

/// Whether `name` is the name of a key directly below `base` on the way to the
/// key `k`.
pub open spec fn leads_to(base: Seq<char>, k: Seq<char>, name: Seq<char>) -> bool {
    starts_with(k, below_path(base)) && name == first_part(k.skip(base.len() as int + 1))
}

/// The names of the keys directly below `base`. A deep path brings its
/// ancestors with it.
pub open spec fn child_names(keys: Set<Seq<char>>, base: Seq<char>) -> Set<Seq<char>> {
    Set::new(
        |n: Seq<char>| exists|k: Seq<char>| keys.contains(k) && #[trigger] leads_to(base, k, n),
    )
}

/// Whether the key `k` is `path` or lies below it.
pub open spec fn within(k: Seq<char>, path: Seq<char>) -> bool {
    k == path || starts_with(k, below_path(path))
}

impl RegView {
    /// The path of an open key: a predefined root, or what a handle was opened on.
    pub open spec fn resolve(self, hkey: u64) -> Option<Seq<char>> {
        if root_name(hkey) is Some {
            root_name(hkey)
        } else if self.handles.contains_key(hkey) {
            Some(self.handles[hkey])
        } else {
            None
        }
    }

    /// The path of the key `sub` below an open key.
    pub open spec fn join(self, hkey: u64, sub: Seq<char>) -> Option<Seq<char>> {
        match self.resolve(hkey) {
            Some(base) => Some(key_join(base, sub)),
            None => None,
        }
    }

    /// Whether a key exists: it has an entry, or a key below it has.
    pub open spec fn has_key(self, path: Seq<char>) -> bool {
        exists|k: Seq<char>| self.keys.contains_key(k) && #[trigger] within(k, path)
    }

    /// The registry with a key that is there at least without values.
    pub open spec fn created(self, path: Seq<char>) -> RegView {
        if self.keys.contains_key(path) {
            self
        } else {
            RegView { keys: self.keys.insert(path, Map::empty()), ..self }
        }
    }

    /// The registry with a value set.
    pub open spec fn with_value(self, path: Seq<char>, name: Seq<char>, v: ValueView) -> RegView {
        let r = self.created(path);
        RegView { keys: r.keys.insert(path, r.keys[path].insert(name, v)), ..r }
    }

    /// A value of a key.
    pub open spec fn value(self, path: Seq<char>, name: Seq<char>) -> Option<ValueView> {
        if self.keys.contains_key(path) && self.keys[path].contains_key(name) {
            Some(self.keys[path][name])
        } else {
            None
        }
    }

    /// The registry without a value.
    pub open spec fn without_value(self, path: Seq<char>, name: Seq<char>) -> RegView {
        RegView { keys: self.keys.insert(path, self.keys[path].remove(name)), ..self }
    }

    /// The registry without a key and all below it.
    pub open spec fn without_key(self, path: Seq<char>) -> RegView {
        RegView {
            keys: Map::new(
                |k: Seq<char>| self.keys.contains_key(k) && !within(k, path),
                |k: Seq<char>| self.keys[k],
            ),
            ..self
        }
    }

    /// The registry with a handle open on a key.
    pub open spec fn opened(self, h: u64, path: Seq<char>) -> RegView {
        RegView { handles: self.handles.insert(h, path), ..self }
    }

    /// The registry with a handle closed.
    pub open spec fn closed(self, h: u64) -> RegView {
        RegView { handles: self.handles.remove(h), ..self }
    }

    /// The names of the keys directly below a key, ascending.
    pub open spec fn subkeys(self, base: Seq<char>) -> Seq<Seq<char>> {
        listing(child_names(self.keys.dom(), base))
    }

    /// The values of a key; a key without an entry has none.
    pub open spec fn values_of(self, path: Seq<char>) -> Values {
        if self.keys.contains_key(path) {
            self.keys[path]
        } else {
            Map::empty()
        }
    }

    /// The names of the values of a key, ascending.
    pub open spec fn value_names(self, path: Seq<char>) -> Seq<Seq<char>> {
        listing(self.values_of(path).dom())
    }
}

/// The largest measure over some texts; 0 where there is none.
pub open spec fn largest(s: Seq<Seq<char>>, f: spec_fn(Seq<char>) -> nat) -> nat
    decreases s.len(),
{
    if s.len() == 0 {
        0
    } else {
        let m = largest(s.drop_last(), f);
        if f(s.last()) > m {
            f(s.last())
        } else {
            m
        }
    }
}

/// A text's number of characters.
pub open spec fn char_count() -> spec_fn(Seq<char>) -> nat {
    |s: Seq<char>| s.len()
}

/// A text's size in code units.
pub open spec fn unit_count() -> spec_fn(Seq<char>) -> nat {
    |s: Seq<char>| utf16(s).len()
}

/// The size of the value of a name.
pub open spec fn data_size(vs: Values) -> spec_fn(Seq<char>) -> nat {
    |s: Seq<char>| vs[s].data.len()
}

/// The largest number of characters of some texts.
pub fn max_chars(v: &Vec<Vec<char>>) -> (r: usize)
    ensures
        r == largest(name_views(v@), char_count()),
{
    let ghost s = name_views(v@);
    let mut r: usize = 0;
    let mut i: usize = 0;
    assert(s.take(0) =~= Seq::empty());
    while i < v.len()
        invariant
            i <= v.len(),
            s == name_views(v@),
            r == largest(s.take(i as int), char_count()),
        decreases v.len() - i,
    {
        proof {
            assert(s.take(i + 1).drop_last() =~= s.take(i as int));
        }
        if v[i].len() > r {
            r = v[i].len();
        }
        i = i + 1;
    }
    assert(s.take(i as int) =~= s);
    r
}

/// The largest size in code units of some texts.
pub fn max_units(v: &Vec<Vec<char>>) -> (r: usize)
    ensures
        r == largest(name_views(v@), unit_count()),
{
    let ghost s = name_views(v@);
    let mut r: usize = 0;
    let mut i: usize = 0;
    assert(s.take(0) =~= Seq::empty());
    while i < v.len()
        invariant
            i <= v.len(),
            s == name_views(v@),
            r == largest(s.take(i as int), unit_count()),
        decreases v.len() - i,
    {
        proof {
            assert(s.take(i + 1).drop_last() =~= s.take(i as int));
        }
        let u = crate::text::encode_utf16_chars(&v[i]);
        if u.len() > r {
            r = u.len();
        }
        i = i + 1;
    }
    assert(s.take(i as int) =~= s);
    r
}

impl Registry {
    /// A registry without keys.
    pub fn new() -> (r: Registry)
        ensures
            r@ == (RegView { keys: Map::empty(), handles: Map::empty() }),
    {
        let r = Registry { keys: StrMap::new(), handles: HashMap::new() };
        assert(r@ =~= RegView { keys: Map::empty(), handles: Map::empty() });
        r
    }

    /// The path of an open key.
    pub fn reg_resolve(&self, hkey: u64) -> (r: Option<String>)
        ensures
            match r {
                Some(s) => self@.resolve(hkey) == Some(s@),
                None => self@.resolve(hkey) is None,
            },
    {
        match reg_hkey_root(hkey) {
            Some(s) => {
                let cs = chars_of(s);
                Some(string_of(&cs))
            },
            None => match self.handles.get(&hkey) {
                Some(p) => Some(p.clone()),
                None => None,
            },
        }
    }

    /// The path of the key `sub` below an open key.
    pub fn reg_join(&self, hkey: u64, sub: &str) -> (r: Option<String>)
        ensures
            match r {
                Some(s) => self@.join(hkey, sub@) == Some(s@),
                None => self@.join(hkey, sub@) is None,
            },
    {
        match self.reg_resolve(hkey) {
            Some(base) => {
                let cs = chars_of(sub);
                Some(join_key(base.as_str(), &cs))
            },
            None => None,
        }
    }

    /// Whether a key has an entry of its own.
    pub fn has_entry(&self, path: &str) -> (r: bool)
        ensures
            r == self@.keys.contains_key(path@),
    {
        self.keys.contains_key(path)
    }

    /// Whether a key exists.
    pub fn reg_key_exists(&self, path: &str) -> (r: bool)
        ensures
            r == self@.has_key(path@),
    {
        let p = chars_of(path);
        let mut pre = crate::text::clone_chars(&p);
        pre.push('\\');
        assert(pre@ =~= below_path(path@));
        self.keys.keys_listed();
        let n: usize = self.keys.len();
        let mut i: usize = 0;
        while i < n
            invariant
                i <= n == self.keys.keys().len(),
                pre@ == below_path(path@),
                p@ == path@,
                forall|k: Seq<char>| #[trigger]
                    self.keys.keys().contains(k) <==> self.keys@.contains_key(k),
                forall|j: int| 0 <= j < i ==> !within(#[trigger] self.keys.keys()[j], path@),
            decreases n - i,
        {
            let k = chars_of(self.keys.key_at(i).as_str());
            if crate::text::chars_eq(&k, &p) || has_prefix(&k, &pre) {
                proof {
                    assert(self.keys.keys().contains(k@));
                    assert(self@.keys.contains_key(k@) && within(k@, path@));
                }
                return true;
            }
            i = i + 1;
        }
        proof {
            assert forall|k: Seq<char>| self@.keys.contains_key(k) implies !#[trigger] within(
                k,
                path@,
            ) by {
                assert(self.keys.keys().contains(k));
                let j = choose|j: int| 0 <= j < self.keys.keys().len() && self.keys.keys()[j] == k;
                assert(!within(self.keys.keys()[j], path@));
            }
        }
        false
    }

    /// Give a key an entry, where it has none.
    pub fn create_key(&mut self, path: &str)
        ensures
            final(self)@ == old(self)@.created(path@),
    {
        let ghost v = self@;
        if !self.keys.contains_key(path) {
            let cs = chars_of(path);
            let fresh: StrMap<RegValue> = StrMap::new();
            assert(value_views(fresh@) =~= Map::empty());
            let _none = self.keys.insert(string_of(&cs), fresh);
            assert(self@ =~= v.created(path@));
        }
    }

    /// Set a value.
    pub fn set_value(&mut self, path: &str, name: &str, ty: u32, data: Vec<u8>)
        ensures
            final(self)@ == old(self)@.with_value(path@, name@, ValueView { ty, data: data@ }),
    {
        let ghost v = self@;
        let ghost value = ValueView { ty, data: data@ };
        self.create_key(path);
        let ghost w = self@;
        let ghost m = self.keys@;
        let n = chars_of(name);
        let p = chars_of(path);
        assert(w.keys.contains_key(path@));
        let mut values = match self.keys.remove(path) {
            Some(m) => m,
            None => StrMap::new(),
        };
        let ghost before = values@;
        let _prev = values.insert(string_of(&n), RegValue { ty, data });
        assert(value_views(values@) =~= value_views(before).insert(name@, value));
        assert(before == m[path@]@);
        let _none = self.keys.insert(string_of(&p), values);
        assert(self@.keys =~= w.keys.insert(path@, w.keys[path@].insert(name@, value)));
        assert(self@ =~= v.with_value(path@, name@, value));
    }

    /// A value of a key.
    pub fn get_value(&self, path: &str, name: &str) -> (r: Option<&RegValue>)
        ensures
            match r {
                Some(x) => self@.value(path@, name@) == Some(x@),
                None => self@.value(path@, name@) is None,
            },
    {
        match self.keys.get(path) {
            Some(m) => m.get(name),
            None => None,
        }
    }

    /// Drop a value; whether it was there.
    pub fn delete_value(&mut self, path: &str, name: &str) -> (r: bool)
        ensures
            r == (old(self)@.value(path@, name@) is Some),
            final(self)@ == (if r {
                old(self)@.without_value(path@, name@)
            } else {
                old(self)@
            }),
    {
        let ghost v = self@;
        if self.get_value(path, name).is_none() {
            return false;
        }
        let p = chars_of(path);
        match self.keys.remove(path) {
            Some(mut values) => {
                let ghost before = values@;
                let _prev = values.remove(name);
                assert(value_views(values@) =~= value_views(before).remove(name@));
                let _none = self.keys.insert(string_of(&p), values);
                assert(self@ =~= v.without_value(path@, name@));
                true
            },
            None => false,
        }
    }

    /// Drop a key and all below it.
    pub fn delete_tree(&mut self, path: &str)
        ensures
            final(self)@ == old(self)@.without_key(path@),
    {
        let ghost m = self.keys@;
        let ghost v = self@;
        let p = chars_of(path);
        let mut pre = crate::text::clone_chars(&p);
        pre.push('\\');
        assert(pre@ =~= below_path(path@));
        let mut i: usize = 0;
        while i < self.keys.len()
            invariant
                i <= self.keys.keys().len(),
                pre@ == below_path(path@),
                p@ == path@,
                self.handles@ == old(self).handles@,
                forall|k: Seq<char>| #[trigger]
                    self.keys@.contains_key(k) ==> m.contains_key(k) && self.keys@[k] == m[k],
                forall|k: Seq<char>| #[trigger]
                    m.contains_key(k) && !within(k, path@) ==> self.keys@.contains_key(k),
                forall|j: int| 0 <= j < i ==> !within(#[trigger] self.keys.keys()[j], path@),
            decreases self.keys.keys().len() - i,
        {
            self.keys.keys_listed();
            let text = self.keys.key_at(i).clone();
            let k = chars_of(text.as_str());
            let ghost ks = self.keys.keys();
            assert(ks.contains(ks[i as int]));
            if crate::text::chars_eq(&k, &p) || has_prefix(&k, &pre) {
                let _gone = self.keys.remove(text.as_str());
                proof {
                    let x = choose|x: int|
                        0 <= x < ks.len() && ks[x] == text@ && self.keys.keys()
                            == #[trigger] ks.remove(x);
                    assert(x == i);
                    assert forall|j: int| 0 <= j < i implies !within(
                        #[trigger] self.keys.keys()[j],
                        path@,
                    ) by {
                        assert(!within(ks[j], path@));
                    }
                }
            } else {
                i = i + 1;
            }
        }
        self.keys.keys_listed();
        proof {
            assert forall|k: Seq<char>| #[trigger] self.keys@.contains_key(k) implies !within(
                k,
                path@,
            ) by {
                assert(self.keys.keys().contains(k));
                let j = choose|j: int| 0 <= j < self.keys.keys().len() && self.keys.keys()[j] == k;
                assert(!within(self.keys.keys()[j], path@));
            }
            let w = v.without_key(path@);
            assert forall|k: Seq<char>| #[trigger] self@.keys.contains_key(k) == w.keys.contains_key(
                k,
            ) by {
                assert(self.keys@.contains_key(k) == self@.keys.contains_key(k));
                assert(m.contains_key(k) == v.keys.contains_key(k));
            }
            assert(self@.keys =~= w.keys);
            assert(self@ =~= w);
        }
    }

    /// The names of the keys directly below `base`, ascending.
    pub fn subkeys(&self, base: &str) -> (r: Vec<Vec<char>>)
        ensures
            name_views(r@) == self@.subkeys(base@),
            is_listing(name_views(r@), child_names(self@.keys.dom(), base@)),
    {
        let mut pre = chars_of(base);
        pre.push('\\');
        assert(pre@ =~= below_path(base@));
        self.keys.keys_listed();
        let n: usize = self.keys.len();
        let mut out: Vec<Vec<char>> = Vec::new();
        let ghost ks = self.keys.keys();
        let ghost mut seen: Set<Seq<char>> = Set::empty();
        let mut i: usize = 0;
        assert(name_views(out@) =~= Seq::empty());
        while i < n
            invariant
                i <= n == ks.len(),
                ks == self.keys.keys(),
                pre@ == below_path(base@),
                is_listing(name_views(out@), seen),
                forall|x: Seq<char>| #[trigger]
                    seen.contains(x) <==> exists|j: int|
                        0 <= j < i && #[trigger] leads_to(base@, ks[j], x),
            decreases n - i,
        {
            let k = chars_of(self.keys.key_at(i).as_str());
            if has_prefix(&k, &pre) {
                let name = part_from(&k, pre.len());
                let ghost nm = name@;
                assert(leads_to(base@, ks[i as int], nm));
                insert_name(&mut out, name, Ghost(seen));
                proof {
                    let next = seen.insert(nm);
                    assert forall|x: Seq<char>| #[trigger]
                        next.contains(x) <==> exists|j: int|
                            0 <= j < i + 1 && #[trigger] leads_to(base@, ks[j], x) by {
                        if exists|j: int| 0 <= j < i + 1 && #[trigger] leads_to(base@, ks[j], x) {
                            let j = choose|j: int|
                                0 <= j < i + 1 && #[trigger] leads_to(base@, ks[j], x);
                            if j < i {
                                assert(seen.contains(x));
                            }
                        }
                        if next.contains(x) && x != nm {
                            assert(seen.contains(x));
                            let j = choose|j: int|
                                0 <= j < i && #[trigger] leads_to(base@, ks[j], x);
                            assert(leads_to(base@, ks[j], x));
                        }
                    }
                    seen = next;
                }
            } else {
                proof {
                    assert forall|x: Seq<char>| #[trigger]
                        seen.contains(x) <==> exists|j: int|
                            0 <= j < i + 1 && #[trigger] leads_to(base@, ks[j], x) by {
                        if exists|j: int| 0 <= j < i + 1 && #[trigger] leads_to(base@, ks[j], x) {
                            let j = choose|j: int|
                                0 <= j < i + 1 && #[trigger] leads_to(base@, ks[j], x);
                            assert(j < i);
                        }
                        if seen.contains(x) {
                            let j = choose|j: int|
                                0 <= j < i && #[trigger] leads_to(base@, ks[j], x);
                            assert(leads_to(base@, ks[j], x));
                        }
                    }
                }
            }
            i = i + 1;
        }
        proof {
            let all = child_names(self@.keys.dom(), base@);
            assert forall|x: Seq<char>| #[trigger] seen.contains(x) <==> all.contains(x) by {
                if all.contains(x) {
                    let k = choose|k: Seq<char>|
                        self@.keys.dom().contains(k) && #[trigger] leads_to(base@, k, x);
                    assert(self.keys@.contains_key(k));
                    assert(ks.contains(k));
                    let j = choose|j: int| 0 <= j < ks.len() && ks[j] == k;
                    assert(leads_to(base@, ks[j], x));
                }
                if seen.contains(x) {
                    let j = choose|j: int| 0 <= j < n && #[trigger] leads_to(base@, ks[j], x);
                    assert(ks.contains(ks[j]));
                    assert(self@.keys.dom().contains(ks[j]));
                }
            }
            assert(seen =~= all);
            lemma_listing(name_views(out@), all);
        }
        out
    }

    /// The names of the values of a key, ascending.
    pub fn value_names(&self, path: &str) -> (r: Vec<Vec<char>>)
        ensures
            name_views(r@) == self@.value_names(path@),
            is_listing(name_views(r@), self@.values_of(path@).dom()),
    {
        let mut out: Vec<Vec<char>> = Vec::new();
        let ghost names = self@.values_of(path@).dom();
        assert(name_views(out@) =~= Seq::empty());
        match self.keys.get(path) {
            None => {
                proof {
                    assert(names =~= Set::empty());
                    lemma_listing(name_views(out@), names);
                }
                out
            },
            Some(m) => {
                m.keys_listed();
                let n: usize = m.len();
                let ghost ks = m.keys();
                let ghost mut seen: Set<Seq<char>> = Set::empty();
                let mut i: usize = 0;
                while i < n
                    invariant
                        i <= n == ks.len(),
                        ks == m.keys(),
                        is_listing(name_views(out@), seen),
                        forall|x: Seq<char>| #[trigger]
                            seen.contains(x) <==> exists|j: int| 0 <= j < i && #[trigger] ks[j] == x,
                    decreases n - i,
                {
                    let name = chars_of(m.key_at(i).as_str());
                    let ghost nm = name@;
                    insert_name(&mut out, name, Ghost(seen));
                    proof {
                        let next = seen.insert(nm);
                        assert forall|x: Seq<char>| #[trigger]
                            next.contains(x) <==> exists|j: int|
                                0 <= j < i + 1 && #[trigger] ks[j] == x by {
                            if next.contains(x) {
                                if x == nm {
                                    assert(ks[i as int] == x);
                                } else {
                                    assert(seen.contains(x));
                                    let j = choose|j: int| 0 <= j < i && #[trigger] ks[j] == x;
                                    assert(ks[j] == x);
                                }
                            }
                            if exists|j: int| 0 <= j < i + 1 && #[trigger] ks[j] == x {
                                let j = choose|j: int| 0 <= j < i + 1 && #[trigger] ks[j] == x;
                                if j < i {
                                    assert(seen.contains(x));
                                }
                            }
                        }
                        seen = next;
                    }
                    i = i + 1;
                }
                proof {
                    assert forall|x: Seq<char>| #[trigger] seen.contains(x) <==> names.contains(x) by {
                        if names.contains(x) {
                            assert(m@.contains_key(x));
                            assert(ks.contains(x));
                        }
                        if seen.contains(x) {
                            let j = choose|j: int| 0 <= j < n && #[trigger] ks[j] == x;
                            assert(ks.contains(x));
                        }
                    }
                    assert(seen =~= names);
                    lemma_listing(name_views(out@), names);
                }
                out
            },
        }
    }

    /// The largest value of a key, over the listed names.
    pub fn max_data(&self, path: &str, names: &Vec<Vec<char>>) -> (r: usize)
        requires
            name_views(names@) == self@.value_names(path@),
            is_listing(name_views(names@), self@.values_of(path@).dom()),
        ensures
            r == largest(self@.value_names(path@), data_size(self@.values_of(path@))),
    {
        let ghost s = name_views(names@);
        let ghost vs = self@.values_of(path@);
        let mut r: usize = 0;
        let mut i: usize = 0;
        assert(s.take(0) =~= Seq::empty());
        while i < names.len()
            invariant
                i <= names.len(),
                s == name_views(names@),
                vs == self@.values_of(path@),
                is_listing(s, vs.dom()),
                r == largest(s.take(i as int), data_size(vs)),
            decreases names.len() - i,
        {
            proof {
                assert(s.take(i + 1).drop_last() =~= s.take(i as int));
                assert(s.contains(s[i as int]));
            }
            let name = string_of(&names[i]);
            assert(name@ == s[i as int]);
            assert(vs.dom().contains(name@));
            match self.get_value(path, name.as_str()) {
                Some(v) => {
                    if v.data.len() > r {
                        r = v.data.len();
                    }
                },
                None => {},
            }
            i = i + 1;
        }
        assert(s.take(i as int) =~= s);
        r
    }

    /// Open a handle on a key.
    pub fn open_handle(&mut self, h: u64, path: String)
        ensures
            final(self)@ == old(self)@.opened(h, path@),
    {
        let ghost v = self@;
        let ghost p = path@;
        let _prev = self.handles.insert(h, path);
        assert(self@ =~= v.opened(h, p));
    }

    /// Close a handle.
    pub fn close_handle(&mut self, h: u64)
        ensures
            final(self)@ == old(self)@.closed(h),
    {
        let ghost v = self@;
        let _prev = self.handles.remove(&h);
        assert(self@ =~= v.closed(h));
    }
}

// ---- what a process finds ---------------------------------------------------

/// A text value: its code units with a NUL behind.
pub open spec fn sz_value(s: Seq<char>) -> ValueView {
    ValueView { ty: REG_SZ, data: utf16_bytes(utf16(s).push(0)) }
}

/// A number value.
pub open spec fn dword_value(v: u32) -> ValueView {
    ValueView { ty: REG_DWORD, data: crate::mem::le_bytes(v as nat, 4) }
}

/// The bytes of a text value.
pub fn sz(s: &str) -> (r: (u32, Vec<u8>))
    ensures
        (ValueView { ty: r.0, data: r.1@ }) == sz_value(s@),
{
    let mut u = encode_utf16(s);
    u.push(0);
    (REG_SZ, units_to_bytes(&u))
}

/// The bytes of a number value.
pub fn dword(v: u32) -> (r: (u32, Vec<u8>))
    ensures
        (ValueView { ty: r.0, data: r.1@ }) == dword_value(v),
{
    (REG_DWORD, crate::mem::bytes_of(v as u64, 4))
}

/// The registry with the values that installers look for.
pub open spec fn seeded(r: RegView) -> RegView {
    let nt = "HKLM\\SOFTWARE\\Microsoft\\Windows NT\\CurrentVersion"@;
    let win = "HKLM\\SOFTWARE\\Microsoft\\Windows\\CurrentVersion"@;
    r.with_value(nt, "ProductName"@, sz_value("Windows 10 Pro"@))
        .with_value(nt, "CurrentVersion"@, sz_value("6.3"@))
        .with_value(nt, "CurrentBuildNumber"@, sz_value("19045"@))
        .with_value(nt, "CurrentMajorVersionNumber"@, dword_value(10))
        .with_value(win, "ProgramFilesDir"@, sz_value("C:\\Program Files"@))
        .with_value(win, "CommonFilesDir"@, sz_value("C:\\Program Files\\Common Files"@))
        .with_value("HKCU\\Software"@, ""@, sz_value(""@))
}

impl Registry {
    /// Add the values that installers look for.
    pub fn reg_seed(&mut self)
        ensures
            final(self)@ == seeded(old(self)@),
    {
        let nt = "HKLM\\SOFTWARE\\Microsoft\\Windows NT\\CurrentVersion";
        let win = "HKLM\\SOFTWARE\\Microsoft\\Windows\\CurrentVersion";
        let (t, d) = sz("Windows 10 Pro");
        self.set_value(nt, "ProductName", t, d);
        let (t, d) = sz("6.3");
        self.set_value(nt, "CurrentVersion", t, d);
        let (t, d) = sz("19045");
        self.set_value(nt, "CurrentBuildNumber", t, d);
        let (t, d) = dword(10);
        self.set_value(nt, "CurrentMajorVersionNumber", t, d);
        let (t, d) = sz("C:\\Program Files");
        self.set_value(win, "ProgramFilesDir", t, d);
        let (t, d) = sz("C:\\Program Files\\Common Files");
        self.set_value(win, "CommonFilesDir", t, d);
        let (t, d) = sz("");
        self.set_value("HKCU\\Software", "", t, d);
    }
}

// ---- laws -------------------------------------------------------------------

/// A value that was set is read back with its type and its bytes; every other
/// value is what it was.
pub proof fn lemma_set_then_get(
    r: RegView,
    path: Seq<char>,
    name: Seq<char>,
    v: ValueView,
    path2: Seq<char>,
    name2: Seq<char>,
)
    ensures
        r.with_value(path, name, v).value(path, name) == Some(v),
        path2 != path || name2 != name ==> r.with_value(path, name, v).value(path2, name2)
            == r.value(path2, name2),
{
}

/// A deleted value is gone; every other value is what it was.
pub proof fn lemma_delete_value(
    r: RegView,
    path: Seq<char>,
    name: Seq<char>,
    path2: Seq<char>,
    name2: Seq<char>,
)
    requires
        r.value(path, name) is Some,
    ensures
        r.without_value(path, name).value(path, name) is None,
        path2 != path || name2 != name ==> r.without_value(path, name).value(path2, name2)
            == r.value(path2, name2),
{
}

/// A created key exists, with the values it had before.
pub proof fn lemma_created_exists(r: RegView, path: Seq<char>)
    ensures
        r.created(path).has_key(path),
        r.created(path).values_of(path) == r.values_of(path),
{
    assert(within(path, path));
}

/// A deleted key no longer exists, and neither does any key below it; keys
/// elsewhere keep their values.
pub proof fn lemma_delete_key(r: RegView, path: Seq<char>, k: Seq<char>)
    ensures
        !r.without_key(path).has_key(path),
        within(k, path) ==> !r.without_key(path).keys.contains_key(k),
        !within(k, path) ==> r.without_key(path).values_of(k) == r.values_of(k),
{
    assert forall|x: Seq<char>| r.without_key(path).keys.contains_key(x) implies !#[trigger] within(
        x,
        path,
    ) by {}
}

/// An ancestor of an existing key exists.
pub proof fn lemma_ancestor_exists(r: RegView, base: Seq<char>, sub: Seq<char>)
    requires
        r.has_key(key_join(base, sub)),
    ensures
        r.has_key(base),
{
    let p = key_join(base, sub);
    let k = choose|k: Seq<char>| r.keys.contains_key(k) && #[trigger] within(k, p);
    let b = base.len() as int + 1;
    let n = p.len() as int + 1;
    if sub.len() > 0 {
        assert(p.take(b) =~= below_path(base));
        if k != p {
            assert(k.take(n).take(b) =~= p.take(b));
            assert(k.take(b) =~= k.take(n).take(b));
        }
    }
    assert(within(k, base));
}

} // verus!
