//! The API-set contracts that a fresh process is given.

use vstd::prelude::*;

use crate::apiset::{build_namespace, contract_hash, contracts_of, distinct_hashes, hash_table_offset, hash_units, is_dot, is_hash_order, last_hyphen, namespace_bytes, namespace_len, strings_len, ApiSetNamespace, Contract, HASH_FACTOR, HEADER_END};
use crate::text::utf16;
use crate::util::lemma_first_index_none;

verus! {

/// The contracts that a fresh process is given.
pub fn default_contracts() -> (r: Vec<(&'static str, &'static str)>)
    ensures
        contracts_of(r@) == default_set(),
{
    let r: Vec<(&'static str, &'static str)> = vec![
        ("api-ms-win-crt-runtime-l1-1-0", "ucrtbase.dll"),
        ("api-ms-win-crt-stdio-l1-1-0", "ucrtbase.dll"),
        ("api-ms-win-crt-heap-l1-1-0", "ucrtbase.dll"),
        ("api-ms-win-crt-string-l1-1-0", "ucrtbase.dll"),
        ("api-ms-win-crt-math-l1-1-0", "ucrtbase.dll"),
        ("api-ms-win-crt-locale-l1-1-0", "ucrtbase.dll"),
        ("api-ms-win-crt-convert-l1-1-0", "ucrtbase.dll"),
        ("api-ms-win-crt-environment-l1-1-0", "ucrtbase.dll"),
        ("api-ms-win-crt-filesystem-l1-1-0", "ucrtbase.dll"),
        ("api-ms-win-crt-time-l1-1-0", "ucrtbase.dll"),
        ("api-ms-win-crt-utility-l1-1-0", "ucrtbase.dll"),
        ("api-ms-win-crt-multibyte-l1-1-0", "ucrtbase.dll"),
        ("api-ms-win-core-processthreads-l1-1-0", "kernelbase.dll"),
        ("api-ms-win-core-synch-l1-1-0", "kernelbase.dll"),
        ("api-ms-win-core-synch-l1-2-0", "kernelbase.dll"),
        ("api-ms-win-core-file-l1-1-0", "kernelbase.dll"),
        ("api-ms-win-core-file-l2-1-0", "kernelbase.dll"),
        ("api-ms-win-core-memory-l1-1-0", "kernelbase.dll"),
        ("api-ms-win-core-heap-l1-1-0", "kernelbase.dll"),
        ("api-ms-win-core-heap-l2-1-0", "kernelbase.dll"),
        ("api-ms-win-core-libraryloader-l1-1-0", "kernelbase.dll"),
        ("api-ms-win-core-libraryloader-l1-2-0", "kernelbase.dll"),
        ("api-ms-win-core-sysinfo-l1-1-0", "kernelbase.dll"),
        ("api-ms-win-core-errorhandling-l1-1-0", "kernelbase.dll"),
        ("api-ms-win-core-debug-l1-1-0", "kernelbase.dll"),
        ("api-ms-win-core-handle-l1-1-0", "kernelbase.dll"),
        ("api-ms-win-core-localization-l1-2-0", "kernelbase.dll"),
        ("api-ms-win-core-rtlsupport-l1-1-0", "ntdll.dll"),
        ("api-ms-win-core-string-l1-1-0", "kernelbase.dll"),
        ("api-ms-win-core-profile-l1-1-0", "kernelbase.dll"),
        ("api-ms-win-core-util-l1-1-0", "kernelbase.dll"),
        ("api-ms-win-core-console-l1-1-0", "kernelbase.dll"),
        ("api-ms-win-core-console-l1-2-0", "kernelbase.dll"),
        ("api-ms-win-core-namedpipe-l1-1-0", "kernelbase.dll"),
        ("api-ms-win-core-datetime-l1-1-0", "kernelbase.dll"),
        ("api-ms-win-core-timezone-l1-1-0", "kernelbase.dll"),
        ("api-ms-win-core-version-l1-1-0", "kernelbase.dll"),
        ("api-ms-win-core-fibers-l1-1-0", "kernelbase.dll"),
        ("api-ms-win-core-interlocked-l1-1-0", "kernelbase.dll"),
        ("api-ms-win-core-io-l1-1-0", "kernelbase.dll"),
        ("api-ms-win-core-registry-l1-1-0", "kernelbase.dll"),
    ];
    assert(contracts_of(r@) =~= default_set());
    r
}

/// A contract given by its two strings.
pub open spec fn contract(name: &str, host: &str) -> Contract {
    Contract { name: name@, host: host@ }
}

/// The contracts that a fresh process is given.
pub open spec fn default_set() -> Seq<Contract> {
    seq![
        contract("api-ms-win-crt-runtime-l1-1-0", "ucrtbase.dll"),
        contract("api-ms-win-crt-stdio-l1-1-0", "ucrtbase.dll"),
        contract("api-ms-win-crt-heap-l1-1-0", "ucrtbase.dll"),
        contract("api-ms-win-crt-string-l1-1-0", "ucrtbase.dll"),
        contract("api-ms-win-crt-math-l1-1-0", "ucrtbase.dll"),
        contract("api-ms-win-crt-locale-l1-1-0", "ucrtbase.dll"),
        contract("api-ms-win-crt-convert-l1-1-0", "ucrtbase.dll"),
        contract("api-ms-win-crt-environment-l1-1-0", "ucrtbase.dll"),
        contract("api-ms-win-crt-filesystem-l1-1-0", "ucrtbase.dll"),
        contract("api-ms-win-crt-time-l1-1-0", "ucrtbase.dll"),
        contract("api-ms-win-crt-utility-l1-1-0", "ucrtbase.dll"),
        contract("api-ms-win-crt-multibyte-l1-1-0", "ucrtbase.dll"),
        contract("api-ms-win-core-processthreads-l1-1-0", "kernelbase.dll"),
        contract("api-ms-win-core-synch-l1-1-0", "kernelbase.dll"),
        contract("api-ms-win-core-synch-l1-2-0", "kernelbase.dll"),
        contract("api-ms-win-core-file-l1-1-0", "kernelbase.dll"),
        contract("api-ms-win-core-file-l2-1-0", "kernelbase.dll"),
        contract("api-ms-win-core-memory-l1-1-0", "kernelbase.dll"),
        contract("api-ms-win-core-heap-l1-1-0", "kernelbase.dll"),
        contract("api-ms-win-core-heap-l2-1-0", "kernelbase.dll"),
        contract("api-ms-win-core-libraryloader-l1-1-0", "kernelbase.dll"),
        contract("api-ms-win-core-libraryloader-l1-2-0", "kernelbase.dll"),
        contract("api-ms-win-core-sysinfo-l1-1-0", "kernelbase.dll"),
        contract("api-ms-win-core-errorhandling-l1-1-0", "kernelbase.dll"),
        contract("api-ms-win-core-debug-l1-1-0", "kernelbase.dll"),
        contract("api-ms-win-core-handle-l1-1-0", "kernelbase.dll"),
        contract("api-ms-win-core-localization-l1-2-0", "kernelbase.dll"),
        contract("api-ms-win-core-rtlsupport-l1-1-0", "ntdll.dll"),
        contract("api-ms-win-core-string-l1-1-0", "kernelbase.dll"),
        contract("api-ms-win-core-profile-l1-1-0", "kernelbase.dll"),
        contract("api-ms-win-core-util-l1-1-0", "kernelbase.dll"),
        contract("api-ms-win-core-console-l1-1-0", "kernelbase.dll"),
        contract("api-ms-win-core-console-l1-2-0", "kernelbase.dll"),
        contract("api-ms-win-core-namedpipe-l1-1-0", "kernelbase.dll"),
        contract("api-ms-win-core-datetime-l1-1-0", "kernelbase.dll"),
        contract("api-ms-win-core-timezone-l1-1-0", "kernelbase.dll"),
        contract("api-ms-win-core-version-l1-1-0", "kernelbase.dll"),
        contract("api-ms-win-core-fibers-l1-1-0", "kernelbase.dll"),
        contract("api-ms-win-core-interlocked-l1-1-0", "kernelbase.dll"),
        contract("api-ms-win-core-io-l1-1-0", "kernelbase.dll"),
        contract("api-ms-win-core-registry-l1-1-0", "kernelbase.dll"),
    ]
}

/// The hashes of the default contracts.
pub open spec fn default_hashes() -> Seq<u32> {
    seq![
        0xe7dd824b,
        0x54a1997a,
        0x5228243d,
        0x86059878,
        0x77693ca1,
        0x52136fcf,
        0xa234a550,
        0x16e09e70,
        0x70e4ac9e,
        0x4ce783fc,
        0x96e79d37,
        0x4c416ac2,
        0x445b4df3,
        0xd8853fb2,
        0xd8853fb3,
        0xb8f170d1,
        0xb8f17492,
        0x7ea512ac,
        0x0ed65e61,
        0x0ed66222,
        0x899357f1,
        0x899357f2,
        0x46cafe64,
        0xdb5a2cf2,
        0xcacc2a4c,
        0x831901e5,
        0x785d62d5,
        0xee0b9888,
        0xd00dd99c,
        0xb4712676,
        0x4ce01a0b,
        0x9434e788,
        0x9434e789,
        0x15657c38,
        0x47a2feb2,
        0x78e790f4,
        0x656238a7,
        0xc5905a66,
        0xe597aed9,
        0x1c378527,
        0xc0253330,
    ]
}

/// An ASCII text has one code unit for each character.
proof fn lemma_ascii_units(s: Seq<char>)
    requires
        forall|i: int| 0 <= i < s.len() ==> (#[trigger] s[i]) as u32 <= 0x7F,
    ensures
        utf16(s).len() == s.len(),
        forall|i: int| 0 <= i < s.len() ==> #[trigger] utf16(s)[i] == s[i] as u32,
    decreases s.len(),
{
    if s.len() > 0 {
        let d = s.drop_last();
        assert forall|i: int| 0 <= i < d.len() implies (#[trigger] d[i]) as u32 <= 0x7F by {
            assert(s[i] as u32 <= 0x7F);
        }
        lemma_ascii_units(d);
        assert(s[s.len() - 1] as u32 <= 0x7F);
        assert forall|i: int| 0 <= i < s.len() implies #[trigger] utf16(s)[i] == s[i] as u32 by {
            if i < d.len() {
                assert(utf16(d)[i] == d[i] as u32);
            }
        }
    }
}

/// The hash of the first `n` plain characters, before reduction modulo 2^32.
spec fn ascii_hash(s: Seq<char>, n: int) -> int
    decreases n,
{
    if n <= 0 {
        0
    } else {
        ascii_hash(s, n - 1) * 31 + s[n - 1] as u32
    }
}

/// A character that a default contract name may hold.
spec fn is_plain(c: char) -> bool {
    c as u32 <= 0x7F && c as u32 != 0x2E && !(0x41 <= c as u32 <= 0x5A)
}

/// Hashing plain characters directly.
proof fn lemma_ascii_hash(s: Seq<char>, u: Seq<u16>, n: int)
    requires
        0 <= n <= s.len() == u.len(),
        forall|i: int| 0 <= i < s.len() ==> is_plain(#[trigger] s[i]),
        forall|i: int| 0 <= i < s.len() ==> #[trigger] u[i] == s[i] as u32,
    ensures
        hash_units(u, n, HASH_FACTOR) == ascii_hash(s, n) % 0x1_0000_0000,
    decreases n,
{
    if n > 0 {
        lemma_ascii_hash(s, u, n - 1);
        assert(is_plain(s[n - 1]));
        assert(u[n - 1] == s[n - 1] as u32);
        let h = ascii_hash(s, n - 1);
        assert(((h % 0x1_0000_0000) * 31 + s[n - 1] as u32) % 0x1_0000_0000 == (h * 31
            + s[n - 1] as u32) % 0x1_0000_0000);
    }
}

/// A plain name that ends in a hyphen and one more character is hashed without
/// those two.
proof fn lemma_plain_contract(s: Seq<char>)
    requires
        s.len() >= 2,
        forall|i: int| 0 <= i < s.len() ==> is_plain(#[trigger] s[i]),
        s[s.len() - 2] as u32 == 0x2D,
        s[s.len() - 1] as u32 != 0x2D,
    ensures
        contract_hash(s, HASH_FACTOR) == ascii_hash(s, s.len() - 2) % 0x1_0000_0000,
{
    assert forall|i: int| 0 <= i < s.len() implies (#[trigger] s[i]) as u32 <= 0x7F by {
        assert(is_plain(s[i]));
    }
    lemma_ascii_units(s);
    let u = utf16(s);
    assert forall|j: int| 0 <= j < u.len() implies !is_dot()(#[trigger] u[j]) by {
        assert(is_plain(s[j]));
    }
    lemma_first_index_none(u, is_dot());
    assert(u[s.len() - 1] == s[s.len() - 1] as u32);
    assert(u[s.len() - 2] == s[s.len() - 2] as u32);
    reveal_with_fuel(last_hyphen, 2);
    lemma_ascii_hash(s, u, s.len() - 2);
}

/// The hash of `api-ms-win-crt-runtime-l1-1-0`.
proof fn lemma_crt_runtime_l1_1()
    ensures
        contract_hash("api-ms-win-crt-runtime-l1-1-0"@, HASH_FACTOR) == 0xe7dd824bu32,
        "api-ms-win-crt-runtime-l1-1-0"@.len() <= 64,
{
    reveal_strlit("api-ms-win-crt-runtime-l1-1-0");
    lemma_plain_contract("api-ms-win-crt-runtime-l1-1-0"@);
    reveal_with_fuel(ascii_hash, 29);
}

/// The hash of `api-ms-win-crt-stdio-l1-1-0`.
proof fn lemma_crt_stdio_l1_1()
    ensures
        contract_hash("api-ms-win-crt-stdio-l1-1-0"@, HASH_FACTOR) == 0x54a1997au32,
        "api-ms-win-crt-stdio-l1-1-0"@.len() <= 64,
{
    reveal_strlit("api-ms-win-crt-stdio-l1-1-0");
    lemma_plain_contract("api-ms-win-crt-stdio-l1-1-0"@);
    reveal_with_fuel(ascii_hash, 27);
}

/// The hash of `api-ms-win-crt-heap-l1-1-0`.
proof fn lemma_crt_heap_l1_1()
    ensures
        contract_hash("api-ms-win-crt-heap-l1-1-0"@, HASH_FACTOR) == 0x5228243du32,
        "api-ms-win-crt-heap-l1-1-0"@.len() <= 64,
{
    reveal_strlit("api-ms-win-crt-heap-l1-1-0");
    lemma_plain_contract("api-ms-win-crt-heap-l1-1-0"@);
    reveal_with_fuel(ascii_hash, 26);
}

/// The hash of `api-ms-win-crt-string-l1-1-0`.
proof fn lemma_crt_string_l1_1()
    ensures
        contract_hash("api-ms-win-crt-string-l1-1-0"@, HASH_FACTOR) == 0x86059878u32,
        "api-ms-win-crt-string-l1-1-0"@.len() <= 64,
{
    reveal_strlit("api-ms-win-crt-string-l1-1-0");
    lemma_plain_contract("api-ms-win-crt-string-l1-1-0"@);
    reveal_with_fuel(ascii_hash, 28);
}

/// The hash of `api-ms-win-crt-math-l1-1-0`.
proof fn lemma_crt_math_l1_1()
    ensures
        contract_hash("api-ms-win-crt-math-l1-1-0"@, HASH_FACTOR) == 0x77693ca1u32,
        "api-ms-win-crt-math-l1-1-0"@.len() <= 64,
{
    reveal_strlit("api-ms-win-crt-math-l1-1-0");
    lemma_plain_contract("api-ms-win-crt-math-l1-1-0"@);
    reveal_with_fuel(ascii_hash, 26);
}

/// The hash of `api-ms-win-crt-locale-l1-1-0`.
proof fn lemma_crt_locale_l1_1()
    ensures
        contract_hash("api-ms-win-crt-locale-l1-1-0"@, HASH_FACTOR) == 0x52136fcfu32,
        "api-ms-win-crt-locale-l1-1-0"@.len() <= 64,
{
    reveal_strlit("api-ms-win-crt-locale-l1-1-0");
    lemma_plain_contract("api-ms-win-crt-locale-l1-1-0"@);
    reveal_with_fuel(ascii_hash, 28);
}

/// The hash of `api-ms-win-crt-convert-l1-1-0`.
proof fn lemma_crt_convert_l1_1()
    ensures
        contract_hash("api-ms-win-crt-convert-l1-1-0"@, HASH_FACTOR) == 0xa234a550u32,
        "api-ms-win-crt-convert-l1-1-0"@.len() <= 64,
{
    reveal_strlit("api-ms-win-crt-convert-l1-1-0");
    lemma_plain_contract("api-ms-win-crt-convert-l1-1-0"@);
    reveal_with_fuel(ascii_hash, 29);
}

/// The hash of `api-ms-win-crt-environment-l1-1-0`.
proof fn lemma_crt_environment_l1_1()
    ensures
        contract_hash("api-ms-win-crt-environment-l1-1-0"@, HASH_FACTOR) == 0x16e09e70u32,
        "api-ms-win-crt-environment-l1-1-0"@.len() <= 64,
{
    reveal_strlit("api-ms-win-crt-environment-l1-1-0");
    lemma_plain_contract("api-ms-win-crt-environment-l1-1-0"@);
    reveal_with_fuel(ascii_hash, 33);
}

/// The hash of `api-ms-win-crt-filesystem-l1-1-0`.
proof fn lemma_crt_filesystem_l1_1()
    ensures
        contract_hash("api-ms-win-crt-filesystem-l1-1-0"@, HASH_FACTOR) == 0x70e4ac9eu32,
        "api-ms-win-crt-filesystem-l1-1-0"@.len() <= 64,
{
    reveal_strlit("api-ms-win-crt-filesystem-l1-1-0");
    lemma_plain_contract("api-ms-win-crt-filesystem-l1-1-0"@);
    reveal_with_fuel(ascii_hash, 32);
}

/// The hash of `api-ms-win-crt-time-l1-1-0`.
proof fn lemma_crt_time_l1_1()
    ensures
        contract_hash("api-ms-win-crt-time-l1-1-0"@, HASH_FACTOR) == 0x4ce783fcu32,
        "api-ms-win-crt-time-l1-1-0"@.len() <= 64,
{
    reveal_strlit("api-ms-win-crt-time-l1-1-0");
    lemma_plain_contract("api-ms-win-crt-time-l1-1-0"@);
    reveal_with_fuel(ascii_hash, 26);
}

/// The hash of `api-ms-win-crt-utility-l1-1-0`.
proof fn lemma_crt_utility_l1_1()
    ensures
        contract_hash("api-ms-win-crt-utility-l1-1-0"@, HASH_FACTOR) == 0x96e79d37u32,
        "api-ms-win-crt-utility-l1-1-0"@.len() <= 64,
{
    reveal_strlit("api-ms-win-crt-utility-l1-1-0");
    lemma_plain_contract("api-ms-win-crt-utility-l1-1-0"@);
    reveal_with_fuel(ascii_hash, 29);
}

/// The hash of `api-ms-win-crt-multibyte-l1-1-0`.
proof fn lemma_crt_multibyte_l1_1()
    ensures
        contract_hash("api-ms-win-crt-multibyte-l1-1-0"@, HASH_FACTOR) == 0x4c416ac2u32,
        "api-ms-win-crt-multibyte-l1-1-0"@.len() <= 64,
{
    reveal_strlit("api-ms-win-crt-multibyte-l1-1-0");
    lemma_plain_contract("api-ms-win-crt-multibyte-l1-1-0"@);
    reveal_with_fuel(ascii_hash, 31);
}

/// The hash of `api-ms-win-core-processthreads-l1-1-0`.
proof fn lemma_core_processthreads_l1_1()
    ensures
        contract_hash("api-ms-win-core-processthreads-l1-1-0"@, HASH_FACTOR) == 0x445b4df3u32,
        "api-ms-win-core-processthreads-l1-1-0"@.len() <= 64,
{
    reveal_strlit("api-ms-win-core-processthreads-l1-1-0");
    lemma_plain_contract("api-ms-win-core-processthreads-l1-1-0"@);
    reveal_with_fuel(ascii_hash, 37);
}

/// The hash of `api-ms-win-core-synch-l1-1-0`.
proof fn lemma_core_synch_l1_1()
    ensures
        contract_hash("api-ms-win-core-synch-l1-1-0"@, HASH_FACTOR) == 0xd8853fb2u32,
        "api-ms-win-core-synch-l1-1-0"@.len() <= 64,
{
    reveal_strlit("api-ms-win-core-synch-l1-1-0");
    lemma_plain_contract("api-ms-win-core-synch-l1-1-0"@);
    reveal_with_fuel(ascii_hash, 28);
}

/// The hash of `api-ms-win-core-synch-l1-2-0`.
proof fn lemma_core_synch_l1_2()
    ensures
        contract_hash("api-ms-win-core-synch-l1-2-0"@, HASH_FACTOR) == 0xd8853fb3u32,
        "api-ms-win-core-synch-l1-2-0"@.len() <= 64,
{
    reveal_strlit("api-ms-win-core-synch-l1-2-0");
    lemma_plain_contract("api-ms-win-core-synch-l1-2-0"@);
    reveal_with_fuel(ascii_hash, 28);
}

/// The hash of `api-ms-win-core-file-l1-1-0`.
proof fn lemma_core_file_l1_1()
    ensures
        contract_hash("api-ms-win-core-file-l1-1-0"@, HASH_FACTOR) == 0xb8f170d1u32,
        "api-ms-win-core-file-l1-1-0"@.len() <= 64,
{
    reveal_strlit("api-ms-win-core-file-l1-1-0");
    lemma_plain_contract("api-ms-win-core-file-l1-1-0"@);
    reveal_with_fuel(ascii_hash, 27);
}

/// The hash of `api-ms-win-core-file-l2-1-0`.
proof fn lemma_core_file_l2_1()
    ensures
        contract_hash("api-ms-win-core-file-l2-1-0"@, HASH_FACTOR) == 0xb8f17492u32,
        "api-ms-win-core-file-l2-1-0"@.len() <= 64,
{
    reveal_strlit("api-ms-win-core-file-l2-1-0");
    lemma_plain_contract("api-ms-win-core-file-l2-1-0"@);
    reveal_with_fuel(ascii_hash, 27);
}

/// The hash of `api-ms-win-core-memory-l1-1-0`.
proof fn lemma_core_memory_l1_1()
    ensures
        contract_hash("api-ms-win-core-memory-l1-1-0"@, HASH_FACTOR) == 0x7ea512acu32,
        "api-ms-win-core-memory-l1-1-0"@.len() <= 64,
{
    reveal_strlit("api-ms-win-core-memory-l1-1-0");
    lemma_plain_contract("api-ms-win-core-memory-l1-1-0"@);
    reveal_with_fuel(ascii_hash, 29);
}

/// The hash of `api-ms-win-core-heap-l1-1-0`.
proof fn lemma_core_heap_l1_1()
    ensures
        contract_hash("api-ms-win-core-heap-l1-1-0"@, HASH_FACTOR) == 0x0ed65e61u32,
        "api-ms-win-core-heap-l1-1-0"@.len() <= 64,
{
    reveal_strlit("api-ms-win-core-heap-l1-1-0");
    lemma_plain_contract("api-ms-win-core-heap-l1-1-0"@);
    reveal_with_fuel(ascii_hash, 27);
}

/// The hash of `api-ms-win-core-heap-l2-1-0`.
proof fn lemma_core_heap_l2_1()
    ensures
        contract_hash("api-ms-win-core-heap-l2-1-0"@, HASH_FACTOR) == 0x0ed66222u32,
        "api-ms-win-core-heap-l2-1-0"@.len() <= 64,
{
    reveal_strlit("api-ms-win-core-heap-l2-1-0");
    lemma_plain_contract("api-ms-win-core-heap-l2-1-0"@);
    reveal_with_fuel(ascii_hash, 27);
}

/// The hash of `api-ms-win-core-libraryloader-l1-1-0`.
proof fn lemma_core_libraryloader_l1_1()
    ensures
        contract_hash("api-ms-win-core-libraryloader-l1-1-0"@, HASH_FACTOR) == 0x899357f1u32,
        "api-ms-win-core-libraryloader-l1-1-0"@.len() <= 64,
{
    reveal_strlit("api-ms-win-core-libraryloader-l1-1-0");
    lemma_plain_contract("api-ms-win-core-libraryloader-l1-1-0"@);
    reveal_with_fuel(ascii_hash, 36);
}

/// The hash of `api-ms-win-core-libraryloader-l1-2-0`.
proof fn lemma_core_libraryloader_l1_2()
    ensures
        contract_hash("api-ms-win-core-libraryloader-l1-2-0"@, HASH_FACTOR) == 0x899357f2u32,
        "api-ms-win-core-libraryloader-l1-2-0"@.len() <= 64,
{
    reveal_strlit("api-ms-win-core-libraryloader-l1-2-0");
    lemma_plain_contract("api-ms-win-core-libraryloader-l1-2-0"@);
    reveal_with_fuel(ascii_hash, 36);
}

/// The hash of `api-ms-win-core-sysinfo-l1-1-0`.
proof fn lemma_core_sysinfo_l1_1()
    ensures
        contract_hash("api-ms-win-core-sysinfo-l1-1-0"@, HASH_FACTOR) == 0x46cafe64u32,
        "api-ms-win-core-sysinfo-l1-1-0"@.len() <= 64,
{
    reveal_strlit("api-ms-win-core-sysinfo-l1-1-0");
    lemma_plain_contract("api-ms-win-core-sysinfo-l1-1-0"@);
    reveal_with_fuel(ascii_hash, 30);
}

/// The hash of `api-ms-win-core-errorhandling-l1-1-0`.
proof fn lemma_core_errorhandling_l1_1()
    ensures
        contract_hash("api-ms-win-core-errorhandling-l1-1-0"@, HASH_FACTOR) == 0xdb5a2cf2u32,
        "api-ms-win-core-errorhandling-l1-1-0"@.len() <= 64,
{
    reveal_strlit("api-ms-win-core-errorhandling-l1-1-0");
    lemma_plain_contract("api-ms-win-core-errorhandling-l1-1-0"@);
    reveal_with_fuel(ascii_hash, 36);
}

/// The hash of `api-ms-win-core-debug-l1-1-0`.
proof fn lemma_core_debug_l1_1()
    ensures
        contract_hash("api-ms-win-core-debug-l1-1-0"@, HASH_FACTOR) == 0xcacc2a4cu32,
        "api-ms-win-core-debug-l1-1-0"@.len() <= 64,
{
    reveal_strlit("api-ms-win-core-debug-l1-1-0");
    lemma_plain_contract("api-ms-win-core-debug-l1-1-0"@);
    reveal_with_fuel(ascii_hash, 28);
}

/// The hash of `api-ms-win-core-handle-l1-1-0`.
proof fn lemma_core_handle_l1_1()
    ensures
        contract_hash("api-ms-win-core-handle-l1-1-0"@, HASH_FACTOR) == 0x831901e5u32,
        "api-ms-win-core-handle-l1-1-0"@.len() <= 64,
{
    reveal_strlit("api-ms-win-core-handle-l1-1-0");
    lemma_plain_contract("api-ms-win-core-handle-l1-1-0"@);
    reveal_with_fuel(ascii_hash, 29);
}

/// The hash of `api-ms-win-core-localization-l1-2-0`.
proof fn lemma_core_localization_l1_2()
    ensures
        contract_hash("api-ms-win-core-localization-l1-2-0"@, HASH_FACTOR) == 0x785d62d5u32,
        "api-ms-win-core-localization-l1-2-0"@.len() <= 64,
{
    reveal_strlit("api-ms-win-core-localization-l1-2-0");
    lemma_plain_contract("api-ms-win-core-localization-l1-2-0"@);
    reveal_with_fuel(ascii_hash, 35);
}

/// The hash of `api-ms-win-core-rtlsupport-l1-1-0`.
proof fn lemma_core_rtlsupport_l1_1()
    ensures
        contract_hash("api-ms-win-core-rtlsupport-l1-1-0"@, HASH_FACTOR) == 0xee0b9888u32,
        "api-ms-win-core-rtlsupport-l1-1-0"@.len() <= 64,
{
    reveal_strlit("api-ms-win-core-rtlsupport-l1-1-0");
    lemma_plain_contract("api-ms-win-core-rtlsupport-l1-1-0"@);
    reveal_with_fuel(ascii_hash, 33);
}

/// The hash of `api-ms-win-core-string-l1-1-0`.
proof fn lemma_core_string_l1_1()
    ensures
        contract_hash("api-ms-win-core-string-l1-1-0"@, HASH_FACTOR) == 0xd00dd99cu32,
        "api-ms-win-core-string-l1-1-0"@.len() <= 64,
{
    reveal_strlit("api-ms-win-core-string-l1-1-0");
    lemma_plain_contract("api-ms-win-core-string-l1-1-0"@);
    reveal_with_fuel(ascii_hash, 29);
}

/// The hash of `api-ms-win-core-profile-l1-1-0`.
proof fn lemma_core_profile_l1_1()
    ensures
        contract_hash("api-ms-win-core-profile-l1-1-0"@, HASH_FACTOR) == 0xb4712676u32,
        "api-ms-win-core-profile-l1-1-0"@.len() <= 64,
{
    reveal_strlit("api-ms-win-core-profile-l1-1-0");
    lemma_plain_contract("api-ms-win-core-profile-l1-1-0"@);
    reveal_with_fuel(ascii_hash, 30);
}

/// The hash of `api-ms-win-core-util-l1-1-0`.
proof fn lemma_core_util_l1_1()
    ensures
        contract_hash("api-ms-win-core-util-l1-1-0"@, HASH_FACTOR) == 0x4ce01a0bu32,
        "api-ms-win-core-util-l1-1-0"@.len() <= 64,
{
    reveal_strlit("api-ms-win-core-util-l1-1-0");
    lemma_plain_contract("api-ms-win-core-util-l1-1-0"@);
    reveal_with_fuel(ascii_hash, 27);
}

/// The hash of `api-ms-win-core-console-l1-1-0`.
proof fn lemma_core_console_l1_1()
    ensures
        contract_hash("api-ms-win-core-console-l1-1-0"@, HASH_FACTOR) == 0x9434e788u32,
        "api-ms-win-core-console-l1-1-0"@.len() <= 64,
{
    reveal_strlit("api-ms-win-core-console-l1-1-0");
    lemma_plain_contract("api-ms-win-core-console-l1-1-0"@);
    reveal_with_fuel(ascii_hash, 30);
}

/// The hash of `api-ms-win-core-console-l1-2-0`.
proof fn lemma_core_console_l1_2()
    ensures
        contract_hash("api-ms-win-core-console-l1-2-0"@, HASH_FACTOR) == 0x9434e789u32,
        "api-ms-win-core-console-l1-2-0"@.len() <= 64,
{
    reveal_strlit("api-ms-win-core-console-l1-2-0");
    lemma_plain_contract("api-ms-win-core-console-l1-2-0"@);
    reveal_with_fuel(ascii_hash, 30);
}

/// The hash of `api-ms-win-core-namedpipe-l1-1-0`.
proof fn lemma_core_namedpipe_l1_1()
    ensures
        contract_hash("api-ms-win-core-namedpipe-l1-1-0"@, HASH_FACTOR) == 0x15657c38u32,
        "api-ms-win-core-namedpipe-l1-1-0"@.len() <= 64,
{
    reveal_strlit("api-ms-win-core-namedpipe-l1-1-0");
    lemma_plain_contract("api-ms-win-core-namedpipe-l1-1-0"@);
    reveal_with_fuel(ascii_hash, 32);
}

/// The hash of `api-ms-win-core-datetime-l1-1-0`.
proof fn lemma_core_datetime_l1_1()
    ensures
        contract_hash("api-ms-win-core-datetime-l1-1-0"@, HASH_FACTOR) == 0x47a2feb2u32,
        "api-ms-win-core-datetime-l1-1-0"@.len() <= 64,
{
    reveal_strlit("api-ms-win-core-datetime-l1-1-0");
    lemma_plain_contract("api-ms-win-core-datetime-l1-1-0"@);
    reveal_with_fuel(ascii_hash, 31);
}

/// The hash of `api-ms-win-core-timezone-l1-1-0`.
proof fn lemma_core_timezone_l1_1()
    ensures
        contract_hash("api-ms-win-core-timezone-l1-1-0"@, HASH_FACTOR) == 0x78e790f4u32,
        "api-ms-win-core-timezone-l1-1-0"@.len() <= 64,
{
    reveal_strlit("api-ms-win-core-timezone-l1-1-0");
    lemma_plain_contract("api-ms-win-core-timezone-l1-1-0"@);
    reveal_with_fuel(ascii_hash, 31);
}

/// The hash of `api-ms-win-core-version-l1-1-0`.
proof fn lemma_core_version_l1_1()
    ensures
        contract_hash("api-ms-win-core-version-l1-1-0"@, HASH_FACTOR) == 0x656238a7u32,
        "api-ms-win-core-version-l1-1-0"@.len() <= 64,
{
    reveal_strlit("api-ms-win-core-version-l1-1-0");
    lemma_plain_contract("api-ms-win-core-version-l1-1-0"@);
    reveal_with_fuel(ascii_hash, 30);
}

/// The hash of `api-ms-win-core-fibers-l1-1-0`.
proof fn lemma_core_fibers_l1_1()
    ensures
        contract_hash("api-ms-win-core-fibers-l1-1-0"@, HASH_FACTOR) == 0xc5905a66u32,
        "api-ms-win-core-fibers-l1-1-0"@.len() <= 64,
{
    reveal_strlit("api-ms-win-core-fibers-l1-1-0");
    lemma_plain_contract("api-ms-win-core-fibers-l1-1-0"@);
    reveal_with_fuel(ascii_hash, 29);
}

/// The hash of `api-ms-win-core-interlocked-l1-1-0`.
proof fn lemma_core_interlocked_l1_1()
    ensures
        contract_hash("api-ms-win-core-interlocked-l1-1-0"@, HASH_FACTOR) == 0xe597aed9u32,
        "api-ms-win-core-interlocked-l1-1-0"@.len() <= 64,
{
    reveal_strlit("api-ms-win-core-interlocked-l1-1-0");
    lemma_plain_contract("api-ms-win-core-interlocked-l1-1-0"@);
    reveal_with_fuel(ascii_hash, 34);
}

/// The hash of `api-ms-win-core-io-l1-1-0`.
proof fn lemma_core_io_l1_1()
    ensures
        contract_hash("api-ms-win-core-io-l1-1-0"@, HASH_FACTOR) == 0x1c378527u32,
        "api-ms-win-core-io-l1-1-0"@.len() <= 64,
{
    reveal_strlit("api-ms-win-core-io-l1-1-0");
    lemma_plain_contract("api-ms-win-core-io-l1-1-0"@);
    reveal_with_fuel(ascii_hash, 25);
}

/// The hash of `api-ms-win-core-registry-l1-1-0`.
proof fn lemma_core_registry_l1_1()
    ensures
        contract_hash("api-ms-win-core-registry-l1-1-0"@, HASH_FACTOR) == 0xc0253330u32,
        "api-ms-win-core-registry-l1-1-0"@.len() <= 64,
{
    reveal_strlit("api-ms-win-core-registry-l1-1-0");
    lemma_plain_contract("api-ms-win-core-registry-l1-1-0"@);
    reveal_with_fuel(ascii_hash, 31);
}

/// A text has at most two code units for each character.
proof fn lemma_units_bound(s: Seq<char>)
    ensures
        utf16(s).len() <= 2 * s.len(),
    decreases s.len(),
{
    if s.len() > 0 {
        lemma_units_bound(s.drop_last());
    }
}

/// Contracts with short strings need little room for them.
proof fn lemma_strings_bound(cs: Seq<Contract>, n: int)
    requires
        0 <= n <= cs.len(),
        forall|i: int|
            0 <= i < cs.len() ==> (#[trigger] cs[i]).name.len() <= 64 && cs[i].host.len() <= 64,
    ensures
        strings_len(cs, n) <= n * 512,
    decreases n,
{
    if n > 0 {
        lemma_strings_bound(cs, n - 1);
        lemma_units_bound(cs[n - 1].name);
        lemma_units_bound(cs[n - 1].host);
    }
}

/// Whether default contract `i` has its listed hash and short strings.
spec fn is_known(i: int) -> bool {
    &&& default_set()[i].hash() == default_hashes()[i]
    &&& default_set()[i].name.len() <= 64
    &&& default_set()[i].host.len() <= 64
}

/// Each default contract has its listed hash and short strings.
#[verifier::rlimit(60)]
proof fn lemma_default_hashes(i: int)
    requires
        0 <= i < 41,
    ensures
        is_known(i),
{
    reveal_strlit("ucrtbase.dll");
    reveal_strlit("kernelbase.dll");
    reveal_strlit("ntdll.dll");
    if i == 0 {
        lemma_crt_runtime_l1_1();
    } else if i == 1 {
        lemma_crt_stdio_l1_1();
    } else if i == 2 {
        lemma_crt_heap_l1_1();
    } else if i == 3 {
        lemma_crt_string_l1_1();
    } else if i == 4 {
        lemma_crt_math_l1_1();
    } else if i == 5 {
        lemma_crt_locale_l1_1();
    } else if i == 6 {
        lemma_crt_convert_l1_1();
    } else if i == 7 {
        lemma_crt_environment_l1_1();
    } else if i == 8 {
        lemma_crt_filesystem_l1_1();
    } else if i == 9 {
        lemma_crt_time_l1_1();
    } else if i == 10 {
        lemma_crt_utility_l1_1();
    } else if i == 11 {
        lemma_crt_multibyte_l1_1();
    } else if i == 12 {
        lemma_core_processthreads_l1_1();
    } else if i == 13 {
        lemma_core_synch_l1_1();
    } else if i == 14 {
        lemma_core_synch_l1_2();
    } else if i == 15 {
        lemma_core_file_l1_1();
    } else if i == 16 {
        lemma_core_file_l2_1();
    } else if i == 17 {
        lemma_core_memory_l1_1();
    } else if i == 18 {
        lemma_core_heap_l1_1();
    } else if i == 19 {
        lemma_core_heap_l2_1();
    } else if i == 20 {
        lemma_core_libraryloader_l1_1();
    } else if i == 21 {
        lemma_core_libraryloader_l1_2();
    } else if i == 22 {
        lemma_core_sysinfo_l1_1();
    } else if i == 23 {
        lemma_core_errorhandling_l1_1();
    } else if i == 24 {
        lemma_core_debug_l1_1();
    } else if i == 25 {
        lemma_core_handle_l1_1();
    } else if i == 26 {
        lemma_core_localization_l1_2();
    } else if i == 27 {
        lemma_core_rtlsupport_l1_1();
    } else if i == 28 {
        lemma_core_string_l1_1();
    } else if i == 29 {
        lemma_core_profile_l1_1();
    } else if i == 30 {
        lemma_core_util_l1_1();
    } else if i == 31 {
        lemma_core_console_l1_1();
    } else if i == 32 {
        lemma_core_console_l1_2();
    } else if i == 33 {
        lemma_core_namedpipe_l1_1();
    } else if i == 34 {
        lemma_core_datetime_l1_1();
    } else if i == 35 {
        lemma_core_timezone_l1_1();
    } else if i == 36 {
        lemma_core_version_l1_1();
    } else if i == 37 {
        lemma_core_fibers_l1_1();
    } else if i == 38 {
        lemma_core_interlocked_l1_1();
    } else if i == 39 {
        lemma_core_io_l1_1();
    } else if i == 40 {
        lemma_core_registry_l1_1();
    }
}

/// The default contracts can be laid out: no two hashes meet, and the
/// namespace is small.
pub proof fn lemma_default_set()
    ensures
        distinct_hashes(default_set()),
        namespace_len(default_set()) <= u32::MAX,
{
    let cs = default_set();
    let hs = default_hashes();
    assert(forall|i: int, j: int|
        0 <= i < j < hs.len() ==> #[trigger] hs[i] != #[trigger] hs[j]);
    assert forall|i: int, j: int| 0 <= i < j < cs.len() implies (#[trigger] cs[i]).hash() != (
    #[trigger] cs[j]).hash() by {
        lemma_default_hashes(i);
        lemma_default_hashes(j);
        assert(is_known(i) && is_known(j));
        assert(hs[i] != hs[j]);
    }
    assert forall|i: int| 0 <= i < cs.len() implies (#[trigger] cs[i]).name.len() <= 64
        && cs[i].host.len() <= 64 by {
        lemma_default_hashes(i);
        assert(is_known(i));
    }
    lemma_strings_bound(cs, cs.len() as int);
}

/// Build the namespace of the default contracts.
pub fn build_populated_namespace() -> (ns: ApiSetNamespace)
    ensures
        ns.count == default_set().len(),
        ns.entry_offset == HEADER_END,
        ns.hash_offset == hash_table_offset(default_set()),
        namespace_len(default_set()) <= u32::MAX,
        exists|order: Seq<(u32, u32)>| #[trigger]
            is_hash_order(default_set(), order) && ns.bytes@ == namespace_bytes(
                default_set(),
                order,
            ),
{
    proof {
        lemma_default_set();
    }
    let contracts = default_contracts();
    build_namespace(contracts.as_slice())
}

} // verus!
