use exemu_os::apiset::{
    api_set_hash, build_namespace, hashable_prefix, ENTRY_SIZE, HASH_ENTRY_SIZE, HASH_FACTOR,
    VALUE_SIZE,
};
use exemu_os::contracts::build_populated_namespace;

fn read_u32(b: &[u8], off: u32) -> u32 {
    u32::from_le_bytes(b[off as usize..off as usize + 4].try_into().unwrap())
}

fn read_utf16(b: &[u8], off: u32, byte_len: u32) -> String {
    let units: Vec<u16> = (0..byte_len / 2)
        .map(|i| {
            let at = (off + i * 2) as usize;
            u16::from_le_bytes(b[at..at + 2].try_into().unwrap())
        })
        .collect();
    String::from_utf16(&units).unwrap()
}

/// Everything up to the last hyphen before the first dot is hashed.
#[test]
fn hashable_prefix_stops_at_last_hyphen() {
    let name = "api-ms-win-crt-runtime-l1-1-0";
    let units: Vec<u16> = name.encode_utf16().collect();
    let prefix = hashable_prefix(&units);
    assert_eq!(String::from_utf16(prefix).unwrap(), "api-ms-win-crt-runtime-l1-1");
}

#[test]
fn hash_is_case_insensitive() {
    let a = api_set_hash("api-ms-win-core-synch-l1-2-0", HASH_FACTOR);
    let b = api_set_hash("API-MS-WIN-CORE-SYNCH-L1-2-0", HASH_FACTOR);
    assert_eq!(a, b);
}

/// The header states the schema and offsets that lie inside the blob.
#[test]
fn header_is_well_formed_v6() {
    let ns = build_populated_namespace();
    let b = &ns.bytes;
    assert_eq!(read_u32(b, 0x00), 6, "Version = 6");
    assert_eq!(read_u32(b, 0x04) as usize, b.len(), "Size == blob length");
    assert_eq!(read_u32(b, 0x08), 0, "Flags = 0");
    assert_eq!(read_u32(b, 0x0C), ns.count, "Count");
    assert_eq!(read_u32(b, 0x10), ns.entry_offset, "EntryOffset");
    assert_eq!(read_u32(b, 0x14), ns.hash_offset, "HashOffset");
    assert_eq!(read_u32(b, 0x18), HASH_FACTOR, "HashFactor");

    let len = b.len() as u32;
    assert!(ns.entry_offset + ns.count * ENTRY_SIZE <= len);
    assert!(ns.hash_offset + ns.count * HASH_ENTRY_SIZE <= len);
    for i in 0..ns.count {
        let eo = ns.entry_offset + i * ENTRY_SIZE;
        let name_off = read_u32(b, eo + 0x04);
        let name_len = read_u32(b, eo + 0x08);
        assert!(name_off + name_len <= len, "entry {i} name string in-bounds");
        let vo = read_u32(b, eo + 0x10);
        assert!(vo + VALUE_SIZE <= len, "entry {i} value in-bounds");
        let val_off = read_u32(b, vo + 0x0C);
        let val_len = read_u32(b, vo + 0x10);
        assert!(val_off + val_len <= len, "entry {i} value string in-bounds");
    }
}

/// A binary search of the hash table is valid, and leads to real entries.
#[test]
fn hash_table_is_sorted_and_indices_valid() {
    let ns = build_populated_namespace();
    let b = &ns.bytes;
    let mut prev = 0u32;
    for i in 0..ns.count {
        let ho = ns.hash_offset + i * HASH_ENTRY_SIZE;
        let h = read_u32(b, ho + 0x00);
        let idx = read_u32(b, ho + 0x04);
        if i > 0 {
            assert!(h > prev, "hash table strictly ascending at {i}");
        }
        prev = h;
        assert!(idx < ns.count, "hash entry {i} index in range");
    }
}

/// Walk the blob as the guest's loader does: hash, binary search, entry, value.
#[test]
fn known_contract_resolves_to_expected_host() {
    let ns = build_populated_namespace();
    let b = &ns.bytes;

    let resolve = |contract: &str| -> Option<String> {
        let h = api_set_hash(contract, HASH_FACTOR);
        let mut lo = 0i64;
        let mut hi = ns.count as i64 - 1;
        while lo <= hi {
            let mid = (lo + hi) / 2;
            let ho = ns.hash_offset + mid as u32 * HASH_ENTRY_SIZE;
            let mh = read_u32(b, ho + 0x00);
            if mh == h {
                let idx = read_u32(b, ho + 0x04);
                let eo = ns.entry_offset + idx * ENTRY_SIZE;
                let name = read_utf16(b, read_u32(b, eo + 0x04), read_u32(b, eo + 0x08));
                assert!(name.starts_with(contract) || contract.starts_with(&name) || name == contract);
                let vo = read_u32(b, eo + 0x10);
                let val_off = read_u32(b, vo + 0x0C);
                let val_len = read_u32(b, vo + 0x10);
                return Some(read_utf16(b, val_off, val_len));
            } else if mh < h {
                lo = mid + 1;
            } else {
                hi = mid - 1;
            }
        }
        None
    };

    assert_eq!(resolve("api-ms-win-crt-stdio-l1-1-0").as_deref(), Some("ucrtbase.dll"));
    assert_eq!(resolve("api-ms-win-core-synch-l1-2-0").as_deref(), Some("kernelbase.dll"));
    assert_eq!(resolve("api-ms-win-core-rtlsupport-l1-1-0").as_deref(), Some("ntdll.dll"));
    assert_eq!(resolve("api-ms-win-core-nonexistent-l9-9-9"), None);
}

#[test]
fn empty_namespace_is_valid() {
    let ns = build_namespace(&[]);
    let b = &ns.bytes;
    assert_eq!(read_u32(b, 0x00), 6);
    assert_eq!(read_u32(b, 0x0C), 0, "Count = 0");
    assert_eq!(read_u32(b, 0x04) as usize, b.len());
    assert!(ns.entry_offset <= b.len() as u32);
    assert!(ns.hash_offset <= b.len() as u32);
}

/// The hash of a prefix is the polynomial in its lower-case units.
#[test]
fn hash_is_the_polynomial_of_the_prefix() {
    assert_eq!(api_set_hash("ab-0", 31), 97 * 31 + 98);
    assert_eq!(api_set_hash("AB-9", 31), 97 * 31 + 98);
    assert_eq!(api_set_hash("-0", 31), 0);
}
