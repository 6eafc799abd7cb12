//! The thunk table: one address for each served symbol.

use vstd::prelude::*;

use crate::api::{classified, symbol_name, symbol_text, Api};
use crate::text::{append_str, chars_of, numeral, numeral_chars, str_eq, string_of};
use crate::util::{first_index, lemma_first_index, lemma_first_index_is, lemma_first_index_none};

verus! {

/// A symbol that an image imports.
pub enum ImportSymbol {
    Named(String),
    Ordinal(u16),
}

impl ImportSymbol {
    /// The name under which the symbol is looked up: `#ord` and the number for
    /// an import by number.
    pub open spec fn text(self) -> Seq<char> {
        match self {
            ImportSymbol::Named(n) => n@,
            ImportSymbol::Ordinal(o) => "#ord"@ + numeral(o as nat, 10),
        }
    }

    /// The name under which the symbol is looked up.
    pub fn name(&self) -> (s: String)
        ensures
            s@ == self.text(),
    {
        match self {
            ImportSymbol::Named(n) => {
                let cs = chars_of(n.as_str());
                string_of(&cs)
            },
            ImportSymbol::Ordinal(o) => {
                let mut out: Vec<char> = Vec::new();
                append_str(&mut out, "#ord");
                let mut digits = numeral_chars(*o as u64, 10);
                out.append(&mut digits);
                assert(out@ =~= "#ord"@ + numeral(*o as nat, 10));
                string_of(&out)
            },
        }
    }
}

/// An import that has a thunk.
pub struct Import {
    pub dll: String,
    pub name: String,
    pub addr: u64,
}

/// The condition that an import is `dll!name`.
pub open spec fn is_import(dll: Seq<char>, name: Seq<char>) -> spec_fn(Import) -> bool {
    |i: Import| i.dll@ == dll && i.name@ == name
}

/// The condition that an import has the thunk at `addr`.
pub open spec fn is_at(addr: u64) -> spec_fn(Import) -> bool {
    |i: Import| i.addr == addr
}

/// The thunks, eight bytes apart from `base` on, and the imports that share
/// them.
pub struct ThunkTable {
    pub base: u64,
    pub apis: Vec<Api>,
    pub imports: Vec<Import>,
}

/// An import as mathematics.
pub struct ImportView {
    pub dll: Seq<char>,
    pub name: Seq<char>,
    pub addr: u64,
}

impl View for Import {
    type V = ImportView;

    open spec fn view(&self) -> ImportView {
        ImportView { dll: self.dll@, name: self.name@, addr: self.addr }
    }
}

/// The addresses of a table: how many there are, and what is imported at which.
#[verifier::ext_equal]
pub struct ThunkView {
    pub base: u64,
    pub count: int,
    pub imports: Seq<ImportView>,
}

impl View for ThunkTable {
    type V = ThunkView;

    open spec fn view(&self) -> ThunkView {
        ThunkView {
            base: self.base,
            count: self.apis.len() as int,
            imports: Seq::new(self.imports@.len(), |i: int| self.imports@[i]@),
        }
    }
}

/// The condition that an import is `dll!name`.
pub open spec fn asks_for(dll: Seq<char>, name: Seq<char>) -> spec_fn(ImportView) -> bool {
    |i: ImportView| i.dll == dll && i.name == name
}

impl ThunkView {
    /// The address that the next thunk gets.
    pub open spec fn next(self) -> int {
        self.base + 8 * self.count
    }

    /// Whether `n` more thunks fit the address space.
    pub open spec fn has_room(self, n: int) -> bool {
        self.next() + 8 * n <= u64::MAX
    }

    /// The address of an import: the one it has, or the next.
    pub open spec fn target(self, dll: Seq<char>, name: Seq<char>) -> u64 {
        match first_index(self.imports, asks_for(dll, name)) {
            Some(i) => self.imports[i].addr,
            None => self.next() as u64,
        }
    }

    /// The table after an import got its address.
    pub open spec fn resolved(self, dll: Seq<char>, name: Seq<char>) -> ThunkView {
        match first_index(self.imports, asks_for(dll, name)) {
            Some(i) => self,
            None => ThunkView {
                count: self.count + 1,
                imports: self.imports.push(ImportView { dll, name, addr: self.next() as u64 }),
                ..self
            },
        }
    }

    /// The table with one more thunk.
    pub open spec fn grown(self) -> ThunkView {
        ThunkView { count: self.count + 1, ..self }
    }

    /// Whether `addr` is the address of a thunk.
    pub open spec fn is_thunk(self, addr: u64) -> bool {
        self.base <= addr < self.next() && (addr - self.base) % 8 == 0
    }

    /// Every import has a thunk, no import is listed twice, and no two share a thunk.
    pub open spec fn wf(self) -> bool {
        &&& 0 <= self.count
        &&& self.next() <= u64::MAX
        &&& forall|i: int|
            0 <= i < self.imports.len() ==> self.is_thunk((#[trigger] self.imports[i]).addr)
        &&& forall|i: int, j: int|
            0 <= i < j < self.imports.len() ==> (#[trigger] self.imports[i]).addr != (
            #[trigger] self.imports[j]).addr && !(self.imports[i].dll == self.imports[j].dll
                && self.imports[i].name == self.imports[j].name)
    }

    /// Whether an import has an address.
    pub open spec fn knows(self, dll: Seq<char>, name: Seq<char>) -> bool {
        first_index(self.imports, asks_for(dll, name)) is Some
    }

    /// The symbol that the thunk at an address was imported for.
    pub open spec fn symbol_at(self, addr: u64) -> Option<Seq<char>> {
        match first_index(self.imports, at_address(addr)) {
            Some(i) => Some(symbol_text(self.imports[i].dll, self.imports[i].name)),
            None => None,
        }
    }

    /// Whether the table came out of another by adding thunks and imports.
    pub open spec fn follows(self, v: ThunkView) -> bool {
        &&& self.base == v.base
        &&& v.count <= self.count
        &&& v.imports.len() <= self.imports.len()
        &&& forall|i: int| 0 <= i < v.imports.len() ==> #[trigger] self.imports[i] == v.imports[i]
    }

    /// The table after a run of imports.
    pub open spec fn after(self, asks: Seq<Ask>) -> ThunkView
        decreases asks.len(),
    {
        if asks.len() == 0 {
            self
        } else {
            self.after(asks.drop_last()).resolved(asks.last().library(), asks.last().name)
        }
    }

    /// The address that import `i` of a run gets.
    pub open spec fn given(self, asks: Seq<Ask>, i: int) -> u64 {
        self.after(asks.take(i)).target(asks[i].library(), asks[i].name)
    }
}

/// A symbol that is asked for: the library it is imported from, the library that serves it
/// where that is a contract, and its name.
pub struct Ask {
    pub dll: Seq<char>,
    pub host: Option<Seq<char>>,
    pub name: Seq<char>,
}

impl Ask {
    /// The library whose symbol it is.
    pub open spec fn library(self) -> Seq<char> {
        match self.host {
            Some(h) => h,
            None => self.dll,
        }
    }
}

/// The condition that an import has the thunk at `addr`.
pub open spec fn at_address(addr: u64) -> spec_fn(ImportView) -> bool {
    |i: ImportView| i.addr == addr
}

impl ThunkTable {
    /// Whether every thunk of another table is here, at its address.
    pub open spec fn extends(self, t: ThunkTable) -> bool {
        &&& self.base == t.base
        &&& t.apis.len() <= self.apis.len()
        &&& forall|i: int| 0 <= i < t.apis.len() ==> #[trigger] self.apis[i] == t.apis[i]
    }

    /// An import is found in the view where it is found in the table.
    proof fn lemma_find_view(self, dll: Seq<char>, name: Seq<char>)
        ensures
            first_index(self@.imports, asks_for(dll, name)) == first_index(
                self.imports@,
                is_import(dll, name),
            ),
    {
        let p = is_import(dll, name);
        let q = asks_for(dll, name);
        lemma_first_index(self.imports@, p);
        match first_index(self.imports@, p) {
            Some(i) => {
                assert forall|j: int| 0 <= j < i implies !q(#[trigger] self@.imports[j]) by {
                    assert(!p(self.imports@[j]));
                }
                lemma_first_index_is(self@.imports, q, i);
            },
            None => {
                assert forall|j: int| 0 <= j < self@.imports.len() implies !q(
                    #[trigger] self@.imports[j],
                ) by {
                    assert(!p(self.imports@[j]));
                }
                lemma_first_index_none(self@.imports, q);
            },
        }
    }

    /// The address of thunk `i`.
    pub open spec fn addr(self, i: int) -> int {
        self.base + 8 * i
    }

    /// The address that the next thunk gets.
    pub open spec fn next(self) -> int {
        self.addr(self.apis.len() as int)
    }

    /// Whether thunk `k` stands for the import `i`.
    pub open spec fn stands_for(self, k: int, i: int) -> bool {
        &&& 0 <= k < self.apis.len()
        &&& self.imports[i].addr == self.addr(k)
        &&& classified(self.imports[i].dll@, self.imports[i].name@, self.apis[k])
    }

    /// Whether the import `i` has a thunk of its service.
    pub open spec fn has_thunk(self, i: int) -> bool {
        exists|k: int| #[trigger] self.stands_for(k, i)
    }

    /// Every import has a thunk of its service, no import is listed twice, and
    /// no two share a thunk.
    pub open spec fn wf(self) -> bool {
        &&& self.next() <= u64::MAX
        &&& forall|i: int| 0 <= i < self.imports.len() ==> #[trigger] self.has_thunk(i)
        &&& forall|i: int, j: int|
            0 <= i < j < self.imports.len() ==> (#[trigger] self.imports[i]).addr != (
            #[trigger] self.imports[j]).addr && !(self.imports[i].dll@ == self.imports[j].dll@
                && self.imports[i].name@ == self.imports[j].name@)
    }

    /// Whether one more thunk fits the address space.
    pub open spec fn has_room(self) -> bool {
        self.next() + 8 <= u64::MAX
    }

    /// The thunk at an address.
    pub open spec fn at(self, addr: u64) -> Option<int> {
        if self.base <= addr < self.next() && (addr - self.base) % 8 == 0 {
            Some((addr - self.base) / 8)
        } else {
            None
        }
    }

    /// The thunk address of an import.
    pub open spec fn import_addr(self, dll: Seq<char>, name: Seq<char>) -> Option<u64> {
        match first_index(self.imports@, is_import(dll, name)) {
            Some(i) => Some(self.imports[i].addr),
            None => None,
        }
    }

    /// The symbol that the thunk at an address was imported for.
    pub open spec fn symbol_at(self, addr: u64) -> Option<Seq<char>> {
        match first_index(self.imports@, is_at(addr)) {
            Some(i) => Some(symbol_text(self.imports[i].dll@, self.imports[i].name@)),
            None => None,
        }
    }

    /// A table without thunks.
    pub fn new(base: u64) -> (t: ThunkTable)
        ensures
            t.wf(),
            t@ == (ThunkView { base, count: 0, imports: Seq::empty() }),
            t.apis@ == Seq::<Api>::empty(),
            t.imports@ == Seq::<Import>::empty(),
    {
        ThunkTable { base, apis: Vec::new(), imports: Vec::new() }
    }

    /// The address that the next thunk gets.
    pub fn next_addr(&self) -> (a: u64)
        requires
            self.wf(),
        ensures
            a == self.next(),
    {
        self.base + 8 * (self.apis.len() as u64)
    }

    /// Whether `n` more thunks fit the address space.
    pub fn room_for(&self, n: usize) -> (r: bool)
        requires
            self.wf(),
        ensures
            r == self@.has_room(n as int),
    {
        let left: u64 = u64::MAX - self.next_addr();
        n as u128 * 8 <= left as u128
    }

    /// A new thunk for `api`.
    pub fn alloc_thunk(&mut self, api: Api) -> (a: u64)
        requires
            old(self).wf(),
            old(self).has_room(),
        ensures
            final(self).wf(),
            a == old(self).next(),
            final(self)@ == old(self)@.grown(),
            final(self).extends(*old(self)),
            final(self).apis@ == old(self).apis@.push(api),
            final(self).imports@ == old(self).imports@,
    {
        let ghost t = *self;
        let a: u64 = self.next_addr();
        self.apis.push(api);
        proof {
            assert forall|i: int| 0 <= i < self.imports.len() implies #[trigger] self.has_thunk(
                i,
            ) by {
                assert(t.has_thunk(i));
                let k = choose|k: int| #[trigger] t.stands_for(k, i);
                assert(t.stands_for(k, i));
                assert(self.stands_for(k, i));
            }
        }
        a
    }

    /// The number of the thunk at an address.
    pub fn lookup(&self, addr: u64) -> (r: Option<usize>)
        requires
            self.wf(),
        ensures
            match r {
                Some(i) => i < self.apis.len() && self.at(addr) == Some(i as int),
                None => self.at(addr) is None,
            },
    {
        if addr < self.base {
            return None;
        }
        let off: u64 = addr - self.base;
        if off % 8 != 0 || off / 8 >= self.apis.len() as u64 {
            return None;
        }
        Some((off / 8) as usize)
    }

    /// The listed import `dll!name`.
    fn find(&self, dll: &str, name: &str) -> (r: Option<usize>)
        ensures
            match r {
                Some(i) => i < self.imports.len() && first_index(
                    self.imports@,
                    is_import(dll@, name@),
                ) == Some(i as int),
                None => first_index(self.imports@, is_import(dll@, name@)) is None,
            },
    {
        let mut i: usize = 0;
        while i < self.imports.len()
            invariant
                i <= self.imports.len(),
                forall|j: int|
                    0 <= j < i ==> !is_import(dll@, name@)(#[trigger] self.imports@[j]),
            decreases self.imports.len() - i,
        {
            let e = &self.imports[i];
            if str_eq(e.dll.as_str(), dll) && str_eq(e.name.as_str(), name) {
                proof {
                    lemma_first_index_is(self.imports@, is_import(dll@, name@), i as int);
                }
                return Some(i);
            }
            i = i + 1;
        }
        proof {
            lemma_first_index_none(self.imports@, is_import(dll@, name@));
        }
        None
    }

    /// The thunk address of the import `dll!name`: the one it has, or a new one.
    pub fn resolve(&mut self, dll: &str, name: &str) -> (a: u64)
        requires
            old(self).wf(),
            old(self).has_room(),
        ensures
            final(self).wf(),
            a == old(self)@.target(dll@, name@),
            final(self)@ == old(self)@.resolved(dll@, name@),
            final(self).extends(*old(self)),
            final(self).import_addr(dll@, name@) == Some(a),
            match old(self).import_addr(dll@, name@) {
                Some(b) => a == b && *final(self) == *old(self),
                None => {
                    &&& a == old(self).next()
                    &&& final(self).apis.len() == old(self).apis.len() + 1
                    &&& final(self).apis@.drop_last() == old(self).apis@
                    &&& classified(dll@, name@, final(self).apis@.last())
                    &&& final(self).imports.len() == old(self).imports.len() + 1
                    &&& final(self).imports@.drop_last() == old(self).imports@
                    &&& final(self).imports@.last().dll@ == dll@
                    &&& final(self).imports@.last().name@ == name@
                    &&& final(self).imports@.last().addr == a
                },
            },
    {
        let ghost t = *self;
        proof {
            self.lemma_find_view(dll@, name@);
        }
        match self.find(dll, name) {
            Some(i) => self.imports[i].addr,
            None => {
                let api = Api::classify(dll, name);
                let a: u64 = self.alloc_thunk(api);
                let d = chars_of(dll);
                let n = chars_of(name);
                let e = Import { dll: string_of(&d), name: string_of(&n), addr: a };
                let ghost mid = *self;
                self.imports.push(e);
                proof {
                    lemma_first_index(t.imports@, is_import(dll@, name@));
                    let last = t.imports.len() as int;
                    assert forall|i: int| 0 <= i < self.imports.len() implies #[trigger] self.has_thunk(
                        i,
                    ) by {
                        if i < last {
                            assert(mid.has_thunk(i));
                            let k = choose|k: int| #[trigger] mid.stands_for(k, i);
                            assert(mid.stands_for(k, i));
                            assert(self.stands_for(k, i));
                        } else {
                            assert(self.stands_for(t.apis.len() as int, i));
                        }
                    }
                    assert forall|i: int, j: int| 0 <= i < j < self.imports.len() implies (
                    #[trigger] self.imports[i]).addr != (#[trigger] self.imports[j]).addr && !(
                    self.imports[i].dll@ == self.imports[j].dll@ && self.imports[i].name@
                        == self.imports[j].name@) by {
                        if j == last {
                            assert(t.has_thunk(i));
                            let k = choose|k: int| #[trigger] t.stands_for(k, i);
                            assert(t.stands_for(k, i));
                            assert(!is_import(dll@, name@)(t.imports@[i]));
                        }
                    }
                    assert forall|j: int| 0 <= j < last implies !is_import(dll@, name@)(
                        #[trigger] self.imports@[j],
                    ) by {
                        assert(!is_import(dll@, name@)(t.imports@[j]));
                    }
                    lemma_first_index_is(self.imports@, is_import(dll@, name@), last);
                    assert(self.apis@.drop_last() =~= t.apis@);
                    assert(self.imports@.drop_last() =~= t.imports@);
                }
                a
            },
        }
    }

    /// The symbol `dll!name` that the thunk at an address was imported for.
    pub fn symbol(&self, addr: u64) -> (r: Option<String>)
        ensures
            match r {
                Some(s) => self.symbol_at(addr) == Some(s@),
                None => self.symbol_at(addr) is None,
            },
    {
        let mut i: usize = 0;
        while i < self.imports.len()
            invariant
                i <= self.imports.len(),
                forall|j: int| 0 <= j < i ==> !is_at(addr)(#[trigger] self.imports@[j]),
            decreases self.imports.len() - i,
        {
            let e = &self.imports[i];
            if e.addr == addr {
                proof {
                    lemma_first_index_is(self.imports@, is_at(addr), i as int);
                }
                return Some(symbol_name(e.dll.as_str(), e.name.as_str()));
            }
            i = i + 1;
        }
        proof {
            lemma_first_index_none(self.imports@, is_at(addr));
        }
        None
    }
}

/// Each import has a thunk of its own, and the thunk serves what the import
/// asks for: looked up at its address, the import's service and its symbol come
/// back.
pub proof fn lemma_import_round_trip(t: ThunkTable, dll: Seq<char>, name: Seq<char>)
    requires
        t.wf(),
        t.import_addr(dll, name) is Some,
    ensures
        t.at(t.import_addr(dll, name)->0) is Some,
        0 <= t.at(t.import_addr(dll, name)->0)->0 < t.apis.len(),
        classified(dll, name, t.apis[t.at(t.import_addr(dll, name)->0)->0]),
        t.symbol_at(t.import_addr(dll, name)->0) == Some(symbol_text(dll, name)),
{
    lemma_first_index(t.imports@, is_import(dll, name));
    let i = first_index(t.imports@, is_import(dll, name))->0;
    let a = t.imports[i].addr;
    assert(t.has_thunk(i));
    let k = choose|k: int| #[trigger] t.stands_for(k, i);
    assert(t.stands_for(k, i));
    assert(is_import(dll, name)(t.imports@[i]));
    assert forall|j: int| 0 <= j < i implies !is_at(a)(#[trigger] t.imports@[j]) by {
        assert(t.imports[j].addr != t.imports[i].addr);
    }
    lemma_first_index_is(t.imports@, is_at(a), i);
}

/// Two imports share a thunk only where they are the same import.
pub proof fn lemma_imports_apart(
    t: ThunkTable,
    dll: Seq<char>,
    name: Seq<char>,
    dll2: Seq<char>,
    name2: Seq<char>,
)
    requires
        t.wf(),
        t.import_addr(dll, name) is Some,
        t.import_addr(dll2, name2) is Some,
    ensures
        t.import_addr(dll, name) == t.import_addr(dll2, name2) <==> dll == dll2 && name == name2,
{
    lemma_first_index(t.imports@, is_import(dll, name));
    lemma_first_index(t.imports@, is_import(dll2, name2));
    let i = first_index(t.imports@, is_import(dll, name))->0;
    let j = first_index(t.imports@, is_import(dll2, name2))->0;
    assert(is_import(dll, name)(t.imports@[i]));
    assert(is_import(dll2, name2)(t.imports@[j]));
    if i < j {
        assert(t.imports[i].addr != t.imports[j].addr);
    }
    if j < i {
        assert(t.imports[j].addr != t.imports[i].addr);
    }
}

/// A table and its view agree: the view is consistent, and tells the same symbols.
pub proof fn lemma_table_view(t: ThunkTable, addr: u64)
    requires
        t.wf(),
    ensures
        t@.wf(),
        t@.symbol_at(addr) == t.symbol_at(addr),
{
    let v = t@;
    assert forall|i: int| 0 <= i < v.imports.len() implies v.is_thunk(
        (#[trigger] v.imports[i]).addr,
    ) by {
        assert(t.has_thunk(i));
        let k = choose|k: int| #[trigger] t.stands_for(k, i);
        assert(t.stands_for(k, i));
        assert(v.imports[i] == t.imports@[i]@);
    }
    assert forall|i: int, j: int| 0 <= i < j < v.imports.len() implies (
    #[trigger] v.imports[i]).addr != (#[trigger] v.imports[j]).addr && !(v.imports[i].dll
        == v.imports[j].dll && v.imports[i].name == v.imports[j].name) by {
        assert(t.imports[i].addr != t.imports[j].addr);
    }
    let p = is_at(addr);
    let q = at_address(addr);
    lemma_first_index(t.imports@, p);
    match first_index(t.imports@, p) {
        Some(i) => {
            assert forall|j: int| 0 <= j < i implies !q(#[trigger] v.imports[j]) by {
                assert(!p(t.imports@[j]));
            }
            lemma_first_index_is(v.imports, q, i);
        },
        None => {
            assert forall|j: int| 0 <= j < v.imports.len() implies !q(#[trigger] v.imports[j]) by {
                assert(!p(t.imports@[j]));
            }
            lemma_first_index_none(v.imports, q);
        },
    }
}

/// An import that is resolved gets its address, and the table stays consistent.
proof fn lemma_resolved(v: ThunkView, dll: Seq<char>, name: Seq<char>)
    requires
        v.wf(),
        v.has_room(1),
    ensures
        v.resolved(dll, name).wf(),
        v.resolved(dll, name).knows(dll, name),
        v.resolved(dll, name).target(dll, name) == v.target(dll, name),
        v.resolved(dll, name).follows(v),
        v.resolved(dll, name).next() <= v.next() + 8,
{
    let p = asks_for(dll, name);
    let r = v.resolved(dll, name);
    lemma_first_index(v.imports, p);
    if first_index(v.imports, p) is None {
        let n = v.imports.len() as int;
        assert forall|i: int| 0 <= i < r.imports.len() implies r.is_thunk(
            (#[trigger] r.imports[i]).addr,
        ) by {
            if i < n {
                assert(r.imports[i] == v.imports[i]);
                assert(v.is_thunk(v.imports[i].addr));
            }
        }
        assert forall|i: int, j: int| 0 <= i < j < r.imports.len() implies (
        #[trigger] r.imports[i]).addr != (#[trigger] r.imports[j]).addr && !(r.imports[i].dll
            == r.imports[j].dll && r.imports[i].name == r.imports[j].name) by {
            assert(r.imports[i] == v.imports[i]);
            assert(v.is_thunk(v.imports[i].addr));
            if j < n {
                assert(r.imports[j] == v.imports[j]);
            } else {
                assert(!p(v.imports[i]));
            }
        }
        assert forall|j: int| 0 <= j < n implies !p(#[trigger] r.imports[j]) by {
            assert(!p(v.imports[j]));
        }
        lemma_first_index_is(r.imports, p, n);
    }
}

/// An import keeps its address in every table that comes out of one that knows it.
pub proof fn lemma_address_kept(v: ThunkView, w: ThunkView, dll: Seq<char>, name: Seq<char>)
    requires
        w.follows(v),
        v.knows(dll, name),
    ensures
        w.knows(dll, name),
        w.target(dll, name) == v.target(dll, name),
{
    let p = asks_for(dll, name);
    lemma_first_index(v.imports, p);
    let i = first_index(v.imports, p)->0;
    assert(w.imports[i] == v.imports[i]);
    assert forall|j: int| 0 <= j < i implies !p(#[trigger] w.imports[j]) by {
        assert(w.imports[j] == v.imports[j]);
        assert(!p(v.imports[j]));
    }
    lemma_first_index_is(w.imports, p, i);
}

/// A run of imports keeps the table consistent and every address in it.
proof fn lemma_after(v: ThunkView, asks: Seq<Ask>)
    requires
        v.wf(),
        v.has_room(asks.len() as int),
    ensures
        v.after(asks).wf(),
        v.after(asks).follows(v),
        v.after(asks).next() <= v.next() + 8 * asks.len(),
    decreases asks.len(),
{
    if asks.len() > 0 {
        lemma_after(v, asks.drop_last());
        lemma_resolved(v.after(asks.drop_last()), asks.last().library(), asks.last().name);
    }
}

/// An import of a run has its address at the end of the run.
proof fn lemma_given(v: ThunkView, asks: Seq<Ask>, i: int)
    requires
        v.wf(),
        v.has_room(asks.len() as int),
        0 <= i < asks.len(),
    ensures
        v.after(asks).knows(asks[i].library(), asks[i].name),
        v.given(asks, i) == v.after(asks).target(asks[i].library(), asks[i].name),
    decreases asks.len(),
{
    let d = asks.drop_last();
    lemma_after(v, d);
    lemma_resolved(v.after(d), asks.last().library(), asks.last().name);
    if i == asks.len() - 1 {
        assert(asks.take(i) =~= d);
    } else {
        lemma_given(v, d, i);
        assert(d.take(i) =~= asks.take(i));
        lemma_address_kept(v.after(d), v.after(asks), asks[i].library(), asks[i].name);
    }
}

/// In every run of imports, two imports get the same address exactly where they ask for the
/// same symbol of the same library; a contract counts as the library that serves it. Every
/// address is that of a thunk, eight bytes apart from the first one, and leads back to the
/// symbol.
pub proof fn lemma_import_run(v: ThunkView, asks: Seq<Ask>, i: int, j: int)
    requires
        v.wf(),
        v.has_room(asks.len() as int),
        0 <= i < asks.len(),
        0 <= j < asks.len(),
    ensures
        v.given(asks, i) == v.given(asks, j) <==> asks[i].library() == asks[j].library()
            && asks[i].name == asks[j].name,
        v.after(asks).is_thunk(v.given(asks, i)),
        v.after(asks).symbol_at(v.given(asks, i)) == Some(
            symbol_text(asks[i].library(), asks[i].name),
        ),
{
    let w = v.after(asks);
    lemma_after(v, asks);
    lemma_given(v, asks, i);
    lemma_given(v, asks, j);
    let p = asks_for(asks[i].library(), asks[i].name);
    let q = asks_for(asks[j].library(), asks[j].name);
    lemma_first_index(w.imports, p);
    lemma_first_index(w.imports, q);
    let x = first_index(w.imports, p)->0;
    let y = first_index(w.imports, q)->0;
    assert(p(w.imports[x]) && q(w.imports[y]));
    let a = w.imports[x].addr;
    assert(w.is_thunk(a));
    if x < y {
        assert(w.imports[x].addr != w.imports[y].addr);
    }
    if y < x {
        assert(w.imports[y].addr != w.imports[x].addr);
    }
    assert forall|k: int| 0 <= k < x implies !at_address(a)(#[trigger] w.imports[k]) by {
        assert(w.imports[k].addr != w.imports[x].addr);
    }
    lemma_first_index_is(w.imports, at_address(a), x);
}

} // verus!
