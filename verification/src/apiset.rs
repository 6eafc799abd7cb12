//! The API-set namespace (schema version 6) that `PEB.ApiSetMap` points at.
//!
//! A loader looks a contract name such as `api-ms-win-core-synch-l1-2-0` up
//! here: it hashes the name's prefix, searches the hash table, and follows the
//! entry to its value, the host DLL. All offsets are relative to the start of
//! the namespace, all strings are UTF-16 without a terminator.

use vstd::prelude::*;
use vstd::slice::slice_subrange;

use crate::mem::{bytes_of, le_bytes, lemma_le_bytes_len};
use crate::text::{
    encode_utf16, lower_char, lower_text, same_ignoring_case, units_to_bytes, utf16, utf16_bytes,
    utf16_char,
};
use crate::util::{first_index, lemma_first_index, lemma_first_index_is, lemma_first_index_none};

verus! {

/// The schema version.
pub const API_SET_SCHEMA_VERSION: u32 = 6;

/// The multiplier of the contract-name hash.
pub const HASH_FACTOR: u32 = 0x1F;

/// Bytes of the header, padded to a multiple of eight.
pub const HEADER_END: u32 = 0x20;

/// Bytes of a namespace entry.
pub const ENTRY_SIZE: u32 = 0x18;

/// Bytes of a value entry.
pub const VALUE_SIZE: u32 = 0x14;

/// Bytes of a hash entry.
pub const HASH_ENTRY_SIZE: u32 = 0x08;

// ---- the hash ---------------------------------------------------------------

/// A code unit with ASCII capitals made small.
pub open spec fn lower_unit(c: u16) -> u16 {
    if 0x41 <= c <= 0x5A {
        (c + 0x20) as u16
    } else {
        c
    }
}

/// A code unit with ASCII capitals made small.
pub fn lower(c: u16) -> (r: u16)
    ensures
        r == lower_unit(c),
{
    if 0x41 <= c && c <= 0x5A {
        c + 0x20
    } else {
        c
    }
}

/// The condition of being a full stop.
pub open spec fn is_dot() -> spec_fn(u16) -> bool {
    |c: u16| c == 0x2E
}

/// The length of a name up to its first full stop.
pub open spec fn stem_len(u: Seq<u16>) -> int {
    match first_index(u, is_dot()) {
        Some(i) => i,
        None => u.len() as int,
    }
}

/// The last hyphen among the first `n` code units.
pub open spec fn last_hyphen(u: Seq<u16>, n: int) -> Option<int>
    decreases n,
{
    if n <= 0 {
        None
    } else if u[n - 1] == 0x2D {
        Some(n - 1)
    } else {
        last_hyphen(u, n - 1)
    }
}

/// The length of the hashable prefix: everything before the last hyphen that
/// precedes the first full stop; nothing where there is no such hyphen.
pub open spec fn prefix_len(u: Seq<u16>) -> int {
    match last_hyphen(u, stem_len(u)) {
        Some(i) => i,
        None => 0,
    }
}

/// The hash of the first `n` code units, in small letters, modulo 2^32.
pub open spec fn hash_units(u: Seq<u16>, n: int, factor: u32) -> u32
    decreases n,
{
    if n <= 0 {
        0
    } else {
        ((hash_units(u, n - 1, factor) * factor + lower_unit(u[n - 1])) % 0x1_0000_0000) as u32
    }
}

/// The hash of a contract name.
pub open spec fn contract_hash(name: Seq<char>, factor: u32) -> u32 {
    hash_units(utf16(name), prefix_len(utf16(name)), factor)
}

/// A last hyphen lies below the bound and holds a hyphen.
proof fn lemma_last_hyphen(u: Seq<u16>, n: int)
    ensures
        match last_hyphen(u, n) {
            Some(i) => 0 <= i < n && u[i] == 0x2D,
            None => true,
        },
    decreases n,
{
    if n > 0 && u[n - 1] != 0x2D {
        lemma_last_hyphen(u, n - 1);
    }
}

/// The hashable prefix is part of the name.
pub proof fn lemma_prefix_len(u: Seq<u16>)
    ensures
        0 <= prefix_len(u) <= stem_len(u) <= u.len(),
{
    lemma_first_index(u, is_dot());
    lemma_last_hyphen(u, stem_len(u));
}

/// The hashable prefix of a contract name: everything up to the last hyphen
/// that precedes the first full stop.
pub fn hashable_prefix(name_utf16: &[u16]) -> (r: &[u16])
    ensures
        r@ == name_utf16@.take(prefix_len(name_utf16@)),
{
    let ghost u = name_utf16@;
    let mut i: usize = 0;
    let mut prefix: usize = 0;
    proof {
        lemma_prefix_len(u);
    }
    while i < name_utf16.len() && name_utf16[i] != 0x2E
        invariant
            i <= name_utf16.len(),
            u == name_utf16@,
            forall|j: int| 0 <= j < i ==> #[trigger] u[j] != 0x2E,
            prefix <= i,
            last_hyphen(u, i as int) == (if prefix == 0 && last_hyphen(u, i as int) is None {
                None::<int>
            } else {
                Some(prefix as int)
            }),
            last_hyphen(u, i as int) is None ==> prefix == 0,
        decreases name_utf16.len() - i,
    {
        if name_utf16[i] == 0x2D {
            prefix = i;
        }
        i = i + 1;
    }
    proof {
        if i < name_utf16.len() {
            lemma_first_index_is(u, is_dot(), i as int);
        } else {
            lemma_first_index_none(u, is_dot());
        }
    }
    slice_subrange(name_utf16, 0, prefix)
}

/// The hash of a contract name: over its hashable prefix, in small letters,
/// each step multiplies by `factor` and adds the code unit, modulo 2^32.
pub fn api_set_hash(name: &str, factor: u32) -> (r: u32)
    ensures
        r == contract_hash(name@, factor),
{
    let units = encode_utf16(name);
    let prefix = hashable_prefix(units.as_slice());
    proof {
        lemma_prefix_len(units@);
    }
    let mut hash: u32 = 0;
    let mut i: usize = 0;
    while i < prefix.len()
        invariant
            i <= prefix.len(),
            prefix@ == units@.take(prefix_len(units@)),
            0 <= prefix_len(units@) <= units@.len(),
            hash == hash_units(units@, i as int, factor),
        decreases prefix.len() - i,
    {
        let c: u16 = lower(prefix[i]);
        assert(hash * factor <= 0xffff_ffff * 0xffff_ffff) by (nonlinear_arith)
            requires
                0 <= hash <= 0xffff_ffff,
                0 <= factor <= 0xffff_ffff,
        ;
        let next: u64 = (hash as u64 * factor as u64 + c as u64) % 0x1_0000_0000;
        hash = next as u32;
        i = i + 1;
    }
    hash
}

/// Lower-casing the units of a text is encoding its lower-cased text.
proof fn lemma_utf16_lower(s: Seq<char>)
    ensures
        utf16(lower_text(s)).len() == utf16(s).len(),
        forall|i: int|
            0 <= i < utf16(s).len() ==> #[trigger] utf16(lower_text(s))[i] == lower_unit(
                utf16(s)[i],
            ),
    decreases s.len(),
{
    if s.len() > 0 {
        let d = s.drop_last();
        lemma_utf16_lower(d);
        let l = lower_text(s);
        assert(l.drop_last() =~= lower_text(d));
        assert(l.last() == lower_char(s.last()));
        let c = s.last();
        vstd::utf8::char_is_scalar(c);
        vstd::utf8::char_is_scalar(lower_char(c));
        assert forall|i: int| 0 <= i < utf16_char(c).len() implies #[trigger] utf16_char(
            lower_char(c),
        )[i] == lower_unit(utf16_char(c)[i]) by {}
        assert(utf16_char(lower_char(c)).len() == utf16_char(c).len());
        assert forall|i: int| 0 <= i < utf16(s).len() implies #[trigger] utf16(l)[i] == lower_unit(
            utf16(s)[i],
        ) by {
            if i < utf16(d).len() {
                assert(utf16(lower_text(d))[i] == lower_unit(utf16(d)[i]));
            } else {
                assert(utf16_char(lower_char(c))[i - utf16(d).len()] == lower_unit(
                    utf16_char(c)[i - utf16(d).len()],
                ));
            }
        }
    }
}

/// Lower-casing keeps the prefix and its hash.
proof fn lemma_hash_lower(u: Seq<u16>, v: Seq<u16>, n: int, factor: u32)
    requires
        u.len() == v.len(),
        0 <= n <= u.len(),
        forall|i: int| 0 <= i < u.len() ==> #[trigger] v[i] == lower_unit(u[i]),
    ensures
        last_hyphen(u, n) == last_hyphen(v, n),
        hash_units(u, n, factor) == hash_units(v, n, factor),
    decreases n,
{
    if n > 0 {
        lemma_hash_lower(u, v, n - 1, factor);
        assert(v[n - 1] == lower_unit(u[n - 1]));
    }
}

/// Contract names that differ only in ASCII case have the same hash.
pub proof fn lemma_hash_ignores_case(a: Seq<char>, b: Seq<char>, factor: u32)
    requires
        same_ignoring_case(a, b),
    ensures
        contract_hash(a, factor) == contract_hash(b, factor),
{
    lemma_hash_of_lower(a, factor);
    lemma_hash_of_lower(b, factor);
}

/// A contract name and its lower-cased form have the same hash.
proof fn lemma_hash_of_lower(s: Seq<char>, factor: u32)
    ensures
        contract_hash(s, factor) == contract_hash(lower_text(s), factor),
{
    let u = utf16(s);
    let v = utf16(lower_text(s));
    lemma_utf16_lower(s);
    lemma_first_index(u, is_dot());
    lemma_prefix_len(u);
    assert forall|j: int| 0 <= j < stem_len(u) implies !is_dot()(#[trigger] v[j]) by {
        assert(!is_dot()(u[j]));
    }
    if first_index(u, is_dot()) is Some {
        lemma_first_index_is(v, is_dot(), stem_len(u));
    } else {
        lemma_first_index_none(v, is_dot());
    }
    assert(stem_len(u) == stem_len(v));
    lemma_hash_lower(u, v, stem_len(u), factor);
    lemma_hash_lower(u, v, prefix_len(u), factor);
}

// ---- the layout -------------------------------------------------------------

/// A contract name and the host DLL that implements it.
pub struct Contract {
    pub name: Seq<char>,
    pub host: Seq<char>,
}

impl Contract {
    /// The code units of the name.
    pub open spec fn name_units(self) -> Seq<u16> {
        utf16(self.name)
    }

    /// The code units of the host.
    pub open spec fn host_units(self) -> Seq<u16> {
        utf16(self.host)
    }

    /// Bytes of both strings.
    pub open spec fn string_len(self) -> int {
        (2 * self.name_units().len() + 2 * self.host_units().len()) as int
    }

    /// The hash of the name.
    pub open spec fn hash(self) -> u32 {
        contract_hash(self.name, HASH_FACTOR)
    }
}

/// The contracts of a list of pairs.
pub open spec fn contracts_of(s: Seq<(&str, &str)>) -> Seq<Contract> {
    Seq::new(s.len(), |i: int| Contract { name: s[i].0@, host: s[i].1@ })
}

/// Bytes of the strings of the first `n` contracts.
pub open spec fn strings_len(cs: Seq<Contract>, n: int) -> int
    decreases n,
{
    if n <= 0 {
        0
    } else {
        strings_len(cs, n - 1) + cs[n - 1].string_len()
    }
}

/// Where the strings start: after the header and the three tables.
pub open spec fn strings_base(n: int) -> int {
    0x20 + n * 0x34
}

/// Where the name of contract `i` lies.
pub open spec fn name_offset(cs: Seq<Contract>, i: int) -> int {
    strings_base(cs.len() as int) + strings_len(cs, i)
}

/// Where the host of contract `i` lies.
pub open spec fn host_offset(cs: Seq<Contract>, i: int) -> int {
    name_offset(cs, i) + 2 * cs[i].name_units().len()
}

/// Where the value entry of contract `i` lies.
pub open spec fn value_offset(cs: Seq<Contract>, i: int) -> int {
    0x20 + cs.len() as int * 0x18 + i * 0x14
}

/// Where the hash table lies.
pub open spec fn hash_table_offset(cs: Seq<Contract>) -> int {
    0x20 + cs.len() as int * 0x2C
}

/// Bytes in use, before padding.
pub open spec fn used_len(cs: Seq<Contract>) -> int {
    strings_base(cs.len() as int) + strings_len(cs, cs.len() as int)
}

/// Bytes of the namespace: those in use, padded to a multiple of eight.
pub open spec fn namespace_len(cs: Seq<Contract>) -> int {
    ((used_len(cs) + 7) / 8) * 8
}

/// Four bytes, least significant first.
pub open spec fn dword(v: int) -> Seq<u8> {
    le_bytes(v as nat, 4)
}

/// The header.
pub open spec fn header_bytes(cs: Seq<Contract>) -> Seq<u8> {
    dword(API_SET_SCHEMA_VERSION as int) + dword(namespace_len(cs)) + dword(0) + dword(
        cs.len() as int,
    ) + dword(HEADER_END as int) + dword(hash_table_offset(cs)) + dword(HASH_FACTOR as int)
        + dword(0)
}

/// The namespace entry of contract `i`: flags, name offset and length, hashed
/// length, value offset, value count.
pub open spec fn entry_record(cs: Seq<Contract>, i: int) -> Seq<u8> {
    dword(0) + dword(name_offset(cs, i)) + dword(2 * cs[i].name_units().len() as int) + dword(
        2 * prefix_len(cs[i].name_units()),
    ) + dword(value_offset(cs, i)) + dword(1)
}

/// The value entry of contract `i`: flags, an empty importer filter, and the
/// host's offset and length.
pub open spec fn value_record(cs: Seq<Contract>, i: int) -> Seq<u8> {
    dword(0) + dword(0) + dword(0) + dword(host_offset(cs, i)) + dword(
        2 * cs[i].host_units().len() as int,
    )
}

/// A hash entry: the hash, and the index of its namespace entry.
pub open spec fn hash_record(order: Seq<(u32, u32)>, i: int) -> Seq<u8> {
    dword(order[i].0 as int) + dword(order[i].1 as int)
}

/// The first `n` records of a table.
pub open spec fn records(f: spec_fn(int) -> Seq<u8>, n: int) -> Seq<u8>
    decreases n,
{
    if n <= 0 {
        Seq::empty()
    } else {
        records(f, n - 1) + f(n - 1)
    }
}

/// The namespace entries.
pub open spec fn entry_table(cs: Seq<Contract>) -> spec_fn(int) -> Seq<u8> {
    |i: int| entry_record(cs, i)
}

/// The value entries.
pub open spec fn value_table(cs: Seq<Contract>) -> spec_fn(int) -> Seq<u8> {
    |i: int| value_record(cs, i)
}

/// The hash entries.
pub open spec fn hash_table(order: Seq<(u32, u32)>) -> spec_fn(int) -> Seq<u8> {
    |i: int| hash_record(order, i)
}

/// The strings of a contract.
pub open spec fn contract_strings(cs: Seq<Contract>) -> spec_fn(int) -> Seq<u8> {
    |i: int| utf16_bytes(cs[i].name_units()) + utf16_bytes(cs[i].host_units())
}

/// `n` zero bytes.
pub open spec fn zero_bytes(n: int) -> Seq<u8> {
    Seq::new(n as nat, |i: int| 0u8)
}

/// The bytes of a namespace: header, namespace entries, value entries, hash
/// entries in the given order, strings, padding.
pub open spec fn namespace_bytes(cs: Seq<Contract>, order: Seq<(u32, u32)>) -> Seq<u8> {
    let n = cs.len() as int;
    header_bytes(cs) + records(entry_table(cs), n) + records(value_table(cs), n) + records(
        hash_table(order),
        n,
    ) + records(contract_strings(cs), n) + zero_bytes(namespace_len(cs) - used_len(cs))
}

/// The contracts' hashes in strictly ascending order, each with its index.
pub open spec fn is_hash_order(cs: Seq<Contract>, order: Seq<(u32, u32)>) -> bool {
    &&& order.len() == cs.len()
    &&& forall|j: int|
        0 <= j < order.len() ==> (#[trigger] order[j]).1 < cs.len() && order[j].0
            == cs[order[j].1 as int].hash()
    &&& forall|j: int, k: int|
        0 <= j < k < order.len() ==> (#[trigger] order[j]).0 < (#[trigger] order[k]).0
    &&& forall|i: int| 0 <= i < cs.len() ==> #[trigger] has_index(order, i)
}

/// Whether hash entry `j` points at contract `i`.
pub open spec fn is_index(order: Seq<(u32, u32)>, j: int, i: int) -> bool {
    0 <= j < order.len() && order[j].1 == i
}

/// Whether some hash entry points at contract `i`.
pub open spec fn has_index(order: Seq<(u32, u32)>, i: int) -> bool {
    exists|j: int| #[trigger] is_index(order, j, i)
}

/// No two contracts have the same hash.
pub open spec fn distinct_hashes(cs: Seq<Contract>) -> bool {
    forall|i: int, j: int|
        0 <= i < j < cs.len() ==> (#[trigger] cs[i]).hash() != (#[trigger] cs[j]).hash()
}

/// A serialized namespace and the offsets its header states.
pub struct ApiSetNamespace {
    /// The bytes, to be placed in guest memory as they are.
    pub bytes: Vec<u8>,
    /// The number of contracts.
    pub count: u32,
    /// Where the namespace entries start.
    pub entry_offset: u32,
    /// Where the hash entries start.
    pub hash_offset: u32,
}

/// A contract made ready for the layout.
struct BuiltEntry {
    name: Vec<u16>,
    hashed: u32,
    hash: u32,
    value: Vec<u16>,
}

/// A list of entries holds what the contracts say.
spec fn built_from(entries: Seq<BuiltEntry>, cs: Seq<Contract>) -> bool {
    &&& entries.len() == cs.len()
    &&& forall|i: int|
        0 <= i < entries.len() ==> (#[trigger] entries[i]).name@ == cs[i].name_units()
            && entries[i].value@ == cs[i].host_units() && entries[i].hashed == 2 * prefix_len(
            cs[i].name_units(),
        ) && entries[i].hash == cs[i].hash()
}

/// The strings of a prefix take no more room than all of them.
proof fn lemma_strings_len(cs: Seq<Contract>, i: int, n: int)
    requires
        0 <= i <= n <= cs.len(),
    ensures
        0 <= strings_len(cs, i) <= strings_len(cs, n),
    decreases n,
{
    if n > i {
        lemma_strings_len(cs, i, n - 1);
    } else if i > 0 {
        lemma_strings_len(cs, i - 1, n - 1);
    }
}

/// Add four bytes, least significant first.
fn put_u32(out: &mut Vec<u8>, v: u32)
    ensures
        final(out)@ == old(out)@ + dword(v as int),
{
    let mut b = bytes_of(v as u64, 4);
    out.append(&mut b);
}

/// The entries of a list of contracts.
fn resolve_contracts(contracts: &[(&str, &str)]) -> (r: Vec<BuiltEntry>)
    requires
        namespace_len(contracts_of(contracts@)) <= u32::MAX,
    ensures
        built_from(r@, contracts_of(contracts@)),
{
    let ghost cs = contracts_of(contracts@);
    let mut out: Vec<BuiltEntry> = Vec::new();
    let mut i: usize = 0;
    while i < contracts.len()
        invariant
            i <= contracts.len(),
            cs == contracts_of(contracts@),
            namespace_len(cs) <= u32::MAX,
            out.len() == i,
            built_from(out@, cs.take(i as int)),
        decreases contracts.len() - i,
    {
        let (contract, host) = contracts[i];
        let name = encode_utf16(contract);
        let hashed: usize = hashable_prefix(name.as_slice()).len();
        let value = encode_utf16(host);
        let hash: u32 = api_set_hash(contract, HASH_FACTOR);
        proof {
            lemma_prefix_len(name@);
            lemma_strings_len(cs, i + 1, cs.len() as int);
            lemma_strings_len(cs, 0, i as int);
            assert(cs[i as int].name == contract@ && cs[i as int].host == host@);
        }
        let hashed_bytes: u32 = (hashed * 2) as u32;
        out.push(BuiltEntry { name, hashed: hashed_bytes, hash, value });
        i = i + 1;
        proof {
            let t = cs.take(i as int);
            assert forall|k: int| 0 <= k < out@.len() implies (#[trigger] out@[k]).name@
                == t[k].name_units() && out@[k].value@ == t[k].host_units() && out@[k].hashed == 2
                * prefix_len(t[k].name_units()) && out@[k].hash == t[k].hash() by {
                if k < i - 1 {
                    assert(cs.take(i - 1)[k] == t[k]);
                }
            }
        }
    }
    assert(cs.take(i as int) =~= cs);
    out
}

/// The hashes in ascending order, each with its index.
fn hash_order(entries: &Vec<BuiltEntry>, Ghost(cs): Ghost<Seq<Contract>>) -> (r: Vec<(u32, u32)>)
    requires
        built_from(entries@, cs),
        distinct_hashes(cs),
        cs.len() <= u32::MAX,
    ensures
        is_hash_order(cs, r@),
{
    let mut order: Vec<(u32, u32)> = Vec::new();
    let mut i: usize = 0;
    assert(is_hash_order(cs.take(0), order@));
    while i < entries.len()
        invariant
            i <= entries.len() == cs.len() <= u32::MAX,
            built_from(entries@, cs),
            distinct_hashes(cs),
            is_hash_order(cs.take(i as int), order@),
        decreases entries.len() - i,
    {
        let h: u32 = entries[i].hash;
        let mut pos: usize = 0;
        while pos < order.len() && order[pos].0 < h
            invariant
                pos <= order.len(),
                forall|j: int| 0 <= j < pos ==> (#[trigger] order@[j]).0 < h,
            decreases order.len() - pos,
        {
            pos = pos + 1;
        }
        let ghost before = order@;
        let ghost t = cs.take(i as int);
        order.insert(pos, (h, i as u32));
        i = i + 1;
        proof {
            let u = cs.take(i as int);
            let after = order@;
            assert(h == cs[i - 1].hash());
            if pos < before.len() {
                let x = before[pos as int].1 as int;
                assert(t[x] == cs[x]);
                assert(cs[x].hash() != cs[i - 1].hash());
            }
            assert forall|j: int| 0 <= j < after.len() implies (#[trigger] after[j]).1 < u.len()
                && after[j].0 == u[after[j].1 as int].hash() by {
                if j < pos {
                    assert(after[j] == before[j]);
                    assert(t[before[j].1 as int] == u[before[j].1 as int]);
                } else if j > pos {
                    assert(after[j] == before[j - 1]);
                    assert(t[before[j - 1].1 as int] == u[before[j - 1].1 as int]);
                }
            }
            assert forall|j: int, k: int| 0 <= j < k < after.len() implies (
            #[trigger] after[j]).0 < (#[trigger] after[k]).0 by {
                let bj = if j < pos {
                    j
                } else {
                    j - 1
                };
                let bk = if k < pos {
                    k
                } else {
                    k - 1
                };
                if j == pos {
                    if bk > pos {
                        assert(before[pos as int].0 < before[bk].0);
                    }
                } else if k == pos {
                    assert(before[bj].0 < h);
                } else {
                    assert(before[bj].0 < before[bk].0);
                }
            }
            assert forall|x: int| 0 <= x < u.len() implies #[trigger] has_index(after, x) by {
                if x == i - 1 {
                    assert(is_index(after, pos as int, x));
                } else {
                    assert(has_index(before, x));
                    let j = choose|j: int| #[trigger] is_index(before, j, x);
                    assert(is_index(before, j, x));
                    let j2 = if j < pos {
                        j
                    } else {
                        j + 1
                    };
                    assert(after[j2] == before[j]);
                    assert(is_index(after, j2, x));
                }
            }
        }
    }
    assert(cs.take(i as int) =~= cs);
    order
}

/// The strings of the contracts, one after another.
fn string_block(entries: &Vec<BuiltEntry>, Ghost(cs): Ghost<Seq<Contract>>) -> (r: Vec<u8>)
    requires
        built_from(entries@, cs),
    ensures
        r@ == records(contract_strings(cs), cs.len() as int),
{
    let mut out: Vec<u8> = Vec::new();
    let mut i: usize = 0;
    while i < entries.len()
        invariant
            i <= entries.len() == cs.len(),
            built_from(entries@, cs),
            out@ == records(contract_strings(cs), i as int),
        decreases entries.len() - i,
    {
        let ghost before = out@;
        let mut a = units_to_bytes(&entries[i].name);
        let mut b = units_to_bytes(&entries[i].value);
        out.append(&mut a);
        out.append(&mut b);
        i = i + 1;
        assert(out@ =~= before + contract_strings(cs)(i - 1));
    }
    out
}

/// Build the namespace of a list of `(contract, host)` pairs, the host with
/// its `.dll`. The hash table is in ascending order, for a binary search.
pub fn build_namespace(contracts: &[(&str, &str)]) -> (ns: ApiSetNamespace)
    requires
        distinct_hashes(contracts_of(contracts@)),
        namespace_len(contracts_of(contracts@)) <= u32::MAX,
    ensures
        ns.count == contracts@.len(),
        ns.entry_offset == HEADER_END,
        ns.hash_offset == hash_table_offset(contracts_of(contracts@)),
        exists|order: Seq<(u32, u32)>| #[trigger]
            is_hash_order(contracts_of(contracts@), order) && ns.bytes@ == namespace_bytes(
                contracts_of(contracts@),
                order,
            ),
{
    let ghost cs = contracts_of(contracts@);
    let ghost n = cs.len() as int;
    proof {
        lemma_strings_len(cs, 0, n);
    }
    let entries = resolve_contracts(contracts);
    let count: u32 = entries.len() as u32;
    let strings = string_block(&entries, Ghost(cs));
    let order = hash_order(&entries, Ghost(cs));
    proof {
        lemma_string_block_len(cs, n);
    }
    let value_base: u32 = HEADER_END + count * 0x18;
    let hash_offset: u32 = value_base + count * 0x14;
    let base: u32 = hash_offset + count * 0x08;
    let used: u32 = base + strings.len() as u32;
    let total: u32 = if used % 8 == 0 {
        used
    } else {
        used - used % 8 + 8
    };
    assert(total == namespace_len(cs));

    let mut bytes: Vec<u8> = Vec::new();
    put_u32(&mut bytes, API_SET_SCHEMA_VERSION);
    put_u32(&mut bytes, total);
    put_u32(&mut bytes, 0);
    put_u32(&mut bytes, count);
    put_u32(&mut bytes, HEADER_END);
    put_u32(&mut bytes, hash_offset);
    put_u32(&mut bytes, HASH_FACTOR);
    put_u32(&mut bytes, 0);
    assert(bytes@ =~= header_bytes(cs));

    let ghost part1 = bytes@;
    let mut i: usize = 0;
    let mut offset: u32 = base;
    assert(bytes@ =~= part1 + records(entry_table(cs), 0));
    while i < entries.len()
        invariant
            i <= entries.len() == count == n == cs.len(),
            built_from(entries@, cs),
            namespace_len(cs) <= u32::MAX,
            value_base == value_offset(cs, 0),
            base == strings_base(n),
            offset == base + strings_len(cs, i as int),
            bytes@ == part1 + records(entry_table(cs), i as int),
        decreases entries.len() - i,
    {
        let ghost before = bytes@;
        proof {
            lemma_strings_len(cs, i as int, n);
            lemma_strings_len(cs, i + 1, n);
            assert(i * 20 + 20 <= n * 20);
        }
        let e = &entries[i];
        put_u32(&mut bytes, 0);
        put_u32(&mut bytes, offset);
        put_u32(&mut bytes, (e.name.len() * 2) as u32);
        put_u32(&mut bytes, e.hashed);
        put_u32(&mut bytes, value_base + i as u32 * 0x14);
        put_u32(&mut bytes, 1);
        assert(bytes@ =~= before + entry_record(cs, i as int));
        offset = offset + (e.name.len() * 2) as u32 + (e.value.len() * 2) as u32;
        i = i + 1;
        assert(bytes@ =~= part1 + records(entry_table(cs), i as int));
    }

    let ghost part2 = bytes@;
    i = 0;
    offset = base;
    assert(bytes@ =~= part2 + records(value_table(cs), 0));
    while i < entries.len()
        invariant
            i <= entries.len() == count == n == cs.len(),
            built_from(entries@, cs),
            namespace_len(cs) <= u32::MAX,
            base == strings_base(n),
            offset == base + strings_len(cs, i as int),
            bytes@ == part2 + records(value_table(cs), i as int),
        decreases entries.len() - i,
    {
        let ghost before = bytes@;
        proof {
            lemma_strings_len(cs, i as int, n);
            lemma_strings_len(cs, i + 1, n);
        }
        let e = &entries[i];
        put_u32(&mut bytes, 0);
        put_u32(&mut bytes, 0);
        put_u32(&mut bytes, 0);
        put_u32(&mut bytes, offset + (e.name.len() * 2) as u32);
        put_u32(&mut bytes, (e.value.len() * 2) as u32);
        assert(bytes@ =~= before + value_record(cs, i as int));
        offset = offset + (e.name.len() * 2) as u32 + (e.value.len() * 2) as u32;
        i = i + 1;
        assert(bytes@ =~= part2 + records(value_table(cs), i as int));
    }

    let ghost part3 = bytes@;
    i = 0;
    assert(bytes@ =~= part3 + records(hash_table(order@), 0));
    while i < order.len()
        invariant
            i <= order.len(),
            bytes@ == part3 + records(hash_table(order@), i as int),
        decreases order.len() - i,
    {
        let ghost before = bytes@;
        let (h, index) = order[i];
        put_u32(&mut bytes, h);
        put_u32(&mut bytes, index);
        assert(bytes@ =~= before + hash_record(order@, i as int));
        i = i + 1;
        assert(bytes@ =~= part3 + records(hash_table(order@), i as int));
    }

    let mut strings = strings;
    bytes.append(&mut strings);
    let ghost part5 = bytes@;
    let mut pad: u32 = total - used;
    let ghost padding = pad as int;
    assert(part5 + zero_bytes(0) =~= part5);
    while pad > 0
        invariant
            pad <= padding,
            bytes@ == part5 + zero_bytes(padding - pad),
        decreases pad,
    {
        bytes.push(0);
        pad = pad - 1;
        assert(bytes@ =~= part5 + zero_bytes(padding - pad));
    }
    assert(bytes@ =~= namespace_bytes(cs, order@));
    ApiSetNamespace { bytes, count, entry_offset: HEADER_END, hash_offset }
}

/// The string block has the length the layout reserves.
proof fn lemma_string_block_len(cs: Seq<Contract>, n: int)
    requires
        0 <= n <= cs.len(),
    ensures
        records(contract_strings(cs), n).len() == strings_len(cs, n),
    decreases n,
{
    if n > 0 {
        lemma_string_block_len(cs, n - 1);
    }
}

// ---- reading a namespace back -----------------------------------------------

/// The four-byte field at `off`.
pub open spec fn field(b: Seq<u8>, off: int) -> nat {
    crate::mem::le_value(b.subrange(off, off + 4))
}

/// Record `i` of a table of equally long records.
proof fn lemma_records(f: spec_fn(int) -> Seq<u8>, n: int, size: int, i: int)
    requires
        0 <= i < n,
        size > 0,
        forall|k: int| 0 <= k < n ==> (#[trigger] f(k)).len() == size,
    ensures
        records(f, n).len() == n * size,
        0 <= i * size,
        i * size + size <= n * size,
        records(f, n).subrange(i * size, i * size + size) == f(i),
    decreases n,
{
    lemma_records_len(f, n, size);
    assert(0 <= i * size && i * size + size <= n * size) by (nonlinear_arith)
        requires
            0 <= i < n,
            size > 0,
    ;
    lemma_records_len(f, n - 1, size);
    assert((n - 1) * size + size == n * size) by (nonlinear_arith);
    if i == n - 1 {
        assert(records(f, n).subrange(i * size, i * size + size) =~= f(i));
    } else {
        lemma_records(f, n - 1, size, i);
        assert(records(f, n).subrange(i * size, i * size + size) =~= records(f, n - 1).subrange(
            i * size,
            i * size + size,
        ));
    }
}

/// The length of a table of equally long records.
proof fn lemma_records_len(f: spec_fn(int) -> Seq<u8>, n: int, size: int)
    requires
        0 <= n,
        forall|k: int| 0 <= k < n ==> (#[trigger] f(k)).len() == size,
    ensures
        records(f, n).len() == n * size,
    decreases n,
{
    if n > 0 {
        lemma_records_len(f, n - 1, size);
        assert((n - 1) * size + size == n * size) by (nonlinear_arith);
    } else {
        assert(n * size == 0) by (nonlinear_arith)
            requires
                n == 0,
        ;
    }
}

/// Where the strings of a contract lie in the string block.
proof fn lemma_strings_at(cs: Seq<Contract>, n: int, i: int)
    requires
        0 <= i < n <= cs.len(),
    ensures
        strings_len(cs, i) + cs[i].string_len() <= strings_len(cs, n),
        records(contract_strings(cs), n).subrange(
            strings_len(cs, i),
            strings_len(cs, i) + cs[i].string_len(),
        ) == contract_strings(cs)(i),
    decreases n,
{
    lemma_string_block_len(cs, n);
    lemma_string_block_len(cs, n - 1);
    lemma_strings_len(cs, 0, i);
    lemma_strings_len(cs, i + 1, n);
    let lo = strings_len(cs, i);
    let hi = lo + cs[i].string_len();
    if i == n - 1 {
        assert(records(contract_strings(cs), n).subrange(lo, hi) =~= contract_strings(cs)(i));
    } else {
        lemma_strings_at(cs, n - 1, i);
        assert(records(contract_strings(cs), n).subrange(lo, hi) =~= records(
            contract_strings(cs),
            n - 1,
        ).subrange(lo, hi));
    }
}

/// The sections of a namespace and where each starts.
proof fn lemma_sections(cs: Seq<Contract>, order: Seq<(u32, u32)>)
    requires
        order.len() == cs.len(),
    ensures
        ({
            let n = cs.len() as int;
            let b = namespace_bytes(cs, order);
            &&& b.len() == namespace_len(cs)
            &&& header_bytes(cs).len() == 0x20
            &&& b.subrange(0, 0x20) == header_bytes(cs)
            &&& b.subrange(0x20, 0x20 + n * 0x18) == records(entry_table(cs), n)
            &&& b.subrange(0x20 + n * 0x18, 0x20 + n * 0x2C) == records(value_table(cs), n)
            &&& b.subrange(0x20 + n * 0x2C, 0x20 + n * 0x34) == records(hash_table(order), n)
            &&& b.subrange(0x20 + n * 0x34, used_len(cs)) == records(contract_strings(cs), n)
        }),
{
    let n = cs.len() as int;
    let b = namespace_bytes(cs, order);
    lemma_dword_len();
    lemma_records_len(entry_table(cs), n, 0x18);
    lemma_records_len(value_table(cs), n, 0x14);
    lemma_records_len(hash_table(order), n, 0x08);
    lemma_string_block_len(cs, n);
    lemma_strings_len(cs, 0, n);
    assert(b.subrange(0, 0x20) =~= header_bytes(cs));
    assert(b.subrange(0x20, 0x20 + n * 0x18) =~= records(entry_table(cs), n));
    assert(b.subrange(0x20 + n * 0x18, 0x20 + n * 0x2C) =~= records(value_table(cs), n));
    assert(b.subrange(0x20 + n * 0x2C, 0x20 + n * 0x34) =~= records(hash_table(order), n));
    assert(b.subrange(0x20 + n * 0x34, used_len(cs)) =~= records(contract_strings(cs), n));
}

/// A field is four bytes long.
proof fn lemma_dword_len()
    ensures
        forall|v: int| (#[trigger] dword(v)).len() == 4,
{
    assert forall|v: int| (#[trigger] dword(v)).len() == 4 by {
        lemma_le_bytes_len(v as nat, 4);
    }
}

/// A field read back.
proof fn lemma_field(b: Seq<u8>, off: int, v: int)
    requires
        0 <= off,
        off + 4 <= b.len(),
        b.subrange(off, off + 4) == dword(v),
        0 <= v <= u32::MAX,
    ensures
        field(b, off) == v,
{
    crate::mem::lemma_pow256();
    crate::mem::lemma_le_round_trip(v as nat, 4);
}

/// A field of a record that lies at `at`.
proof fn lemma_record_field(b: Seq<u8>, at: int, rec: Seq<u8>, k: int, v: int)
    requires
        0 <= at,
        at + rec.len() <= b.len(),
        b.subrange(at, at + rec.len()) == rec,
        0 <= k,
        k + 4 <= rec.len(),
        rec.subrange(k, k + 4) == dword(v),
        0 <= v <= u32::MAX,
    ensures
        field(b, at + k) == v,
{
    assert(b.subrange(at + k, at + k + 4) =~= rec.subrange(k, k + 4)) by {
        assert forall|x: int| 0 <= x < 4 implies #[trigger] b.subrange(at + k, at + k + 4)[x]
            == rec.subrange(k, k + 4)[x] by {
            assert(b.subrange(at, at + rec.len())[k + x] == rec[k + x]);
        }
    }
    lemma_field(b, at + k, v);
}

/// Following contract `i` from its namespace entry leads to its name, its
/// hashed length and its host.
#[verifier::rlimit(60)]
pub proof fn lemma_entry_resolves(cs: Seq<Contract>, order: Seq<(u32, u32)>, i: int)
    requires
        is_hash_order(cs, order),
        namespace_len(cs) <= u32::MAX,
        0 <= i < cs.len(),
    ensures
        ({
            let b = namespace_bytes(cs, order);
            let entry = HEADER_END + i * 0x18;
            let name = field(b, entry + 0x04) as int;
            let value = field(b, entry + 0x10) as int;
            let host = field(b, value + 0x0C) as int;
            &&& b.subrange(name, name + field(b, entry + 0x08)) == utf16_bytes(
                cs[i].name_units(),
            )
            &&& field(b, entry + 0x0C) == 2 * prefix_len(cs[i].name_units())
            &&& field(b, entry + 0x14) == 1
            &&& b.subrange(host, host + field(b, value + 0x10)) == utf16_bytes(
                cs[i].host_units(),
            )
        }),
{
    let n = cs.len() as int;
    let b = namespace_bytes(cs, order);
    lemma_sections(cs, order);
    lemma_dword_len();
    lemma_strings_len(cs, 0, i);
    lemma_strings_len(cs, i + 1, n);
    lemma_strings_len(cs, 0, n);
    lemma_strings_at(cs, n, i);
    lemma_prefix_len(cs[i].name_units());

    // The namespace entry.
    let e = entry_record(cs, i);
    let entry = HEADER_END + i * 0x18;
    lemma_records(entry_table(cs), n, 0x18, i);
    assert(b.subrange(entry, entry + 0x18) =~= b.subrange(0x20, 0x20 + n * 0x18).subrange(
        i * 0x18,
        i * 0x18 + 0x18,
    ));
    assert(entry_table(cs)(i) == e);
    assert(e.subrange(0x04, 0x08) =~= dword(name_offset(cs, i)));
    assert(e.subrange(0x08, 0x0C) =~= dword(2 * cs[i].name_units().len() as int));
    assert(e.subrange(0x0C, 0x10) =~= dword(2 * prefix_len(cs[i].name_units())));
    assert(e.subrange(0x10, 0x14) =~= dword(value_offset(cs, i)));
    assert(e.subrange(0x14, 0x18) =~= dword(1));
    lemma_record_field(b, entry, e, 0x04, name_offset(cs, i));
    lemma_record_field(b, entry, e, 0x08, 2 * cs[i].name_units().len() as int);
    lemma_record_field(b, entry, e, 0x0C, 2 * prefix_len(cs[i].name_units()));
    lemma_record_field(b, entry, e, 0x10, value_offset(cs, i));
    lemma_record_field(b, entry, e, 0x14, 1);

    // The value entry.
    let v = value_record(cs, i);
    let value = value_offset(cs, i);
    lemma_records(value_table(cs), n, 0x14, i);
    assert(b.subrange(value, value + 0x14) =~= b.subrange(
        0x20 + n * 0x18,
        0x20 + n * 0x2C,
    ).subrange(i * 0x14, i * 0x14 + 0x14));
    assert(value_table(cs)(i) == v);
    assert(v.subrange(0x0C, 0x10) =~= dword(host_offset(cs, i)));
    assert(v.subrange(0x10, 0x14) =~= dword(2 * cs[i].host_units().len() as int));
    lemma_record_field(b, value, v, 0x0C, host_offset(cs, i));
    lemma_record_field(b, value, v, 0x10, 2 * cs[i].host_units().len() as int);

    // The strings.
    let nb = utf16_bytes(cs[i].name_units());
    let hb = utf16_bytes(cs[i].host_units());
    let lo = strings_len(cs, i);
    let block = b.subrange(0x20 + n * 0x34, used_len(cs));
    let mine = block.subrange(lo, lo + cs[i].string_len());
    assert(mine == nb + hb);
    assert(mine.subrange(0, nb.len() as int) =~= nb);
    assert(mine.subrange(nb.len() as int, mine.len() as int) =~= hb);
    assert(b.subrange(name_offset(cs, i), name_offset(cs, i) + nb.len()) =~= mine.subrange(
        0,
        nb.len() as int,
    ));
    assert(b.subrange(host_offset(cs, i), host_offset(cs, i) + hb.len()) =~= mine.subrange(
        nb.len() as int,
        mine.len() as int,
    ));
}

/// Hash entry `j` as it reads in the namespace.
proof fn lemma_hash_entry(cs: Seq<Contract>, order: Seq<(u32, u32)>, j: int)
    requires
        is_hash_order(cs, order),
        0 <= j < cs.len(),
    ensures
        field(namespace_bytes(cs, order), hash_table_offset(cs) + j * 8) == order[j].0,
        field(namespace_bytes(cs, order), hash_table_offset(cs) + j * 8 + 4) == order[j].1,
{
    let n = cs.len() as int;
    let b = namespace_bytes(cs, order);
    lemma_sections(cs, order);
    lemma_dword_len();
    lemma_strings_len(cs, 0, n);
    let r = hash_record(order, j);
    let at = hash_table_offset(cs) + j * 8;
    lemma_records(hash_table(order), n, 8, j);
    assert(hash_table(order)(j) == r);
    assert(b.subrange(at, at + 8) =~= b.subrange(0x20 + n * 0x2C, 0x20 + n * 0x34).subrange(
        j * 8,
        j * 8 + 8,
    ));
    assert(r.subrange(0, 4) =~= dword(order[j].0 as int));
    assert(r.subrange(4, 8) =~= dword(order[j].1 as int));
    lemma_record_field(b, at, r, 0, order[j].0 as int);
    lemma_record_field(b, at, r, 4, order[j].1 as int);
}

/// The hash in entry `j` of a hash table at `at`.
pub open spec fn hash_field(b: Seq<u8>, at: int, j: int) -> nat {
    field(b, at + j * 8)
}

/// The index in entry `j` of a hash table at `at`.
pub open spec fn index_field(b: Seq<u8>, at: int, j: int) -> nat {
    field(b, at + j * 8 + 4)
}

/// Whether some entry of the hash table leads from `hash` to entry `i`.
pub open spec fn leads_to(b: Seq<u8>, at: int, n: int, hash: u32, i: int) -> bool {
    exists|j: int|
        0 <= j < n && #[trigger] hash_field(b, at, j) == hash && index_field(b, at, j) == i
}

/// The hash table of a namespace ascends strictly, so that it can be searched
/// by halves, and every contract's hash leads to its namespace entry.
pub proof fn lemma_hash_table_searchable(cs: Seq<Contract>, order: Seq<(u32, u32)>)
    requires
        is_hash_order(cs, order),
    ensures
        forall|j: int, k: int|
            0 <= j < k < cs.len() ==> #[trigger] hash_field(
                namespace_bytes(cs, order),
                hash_table_offset(cs),
                j,
            ) < #[trigger] hash_field(namespace_bytes(cs, order), hash_table_offset(cs), k),
        forall|i: int|
            0 <= i < cs.len() ==> leads_to(
                namespace_bytes(cs, order),
                hash_table_offset(cs),
                cs.len() as int,
                (#[trigger] cs[i]).hash(),
                i,
            ),
{
    let b = namespace_bytes(cs, order);
    let at = hash_table_offset(cs);
    assert forall|j: int, k: int| 0 <= j < k < cs.len() implies #[trigger] hash_field(b, at, j)
        < #[trigger] hash_field(b, at, k) by {
        lemma_hash_entry(cs, order, j);
        lemma_hash_entry(cs, order, k);
        assert(order[j].0 < order[k].0);
    }
    assert forall|i: int| 0 <= i < cs.len() implies leads_to(
        b,
        at,
        cs.len() as int,
        (#[trigger] cs[i]).hash(),
        i,
    ) by {
        assert(has_index(order, i));
        let j = choose|j: int| #[trigger] is_index(order, j, i);
        lemma_hash_entry(cs, order, j);
        assert(order[j].1 == i);
        assert(hash_field(b, at, j) == cs[i].hash());
    }
}

} // verus!
