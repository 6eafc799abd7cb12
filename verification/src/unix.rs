//! The entries that a library of the guest calls on its host half.

use vstd::prelude::*;

verus! {

/// An entry of a host half.
#[derive(Clone, Copy, Debug, PartialEq, Eq, Structural)]
pub enum UnixEntry {
    LoadSoDll,
    UnwindBuiltinDll,
    WineDbgWrite,
    WineServerCall,
    ServerFdToHandle,
    ServerHandleToFd,
    Spawnvp,
    SystemTimePrecise,
}

/// The host half of a library: its entries, in the order they are called by.
pub struct Unixlib {
    pub name: String,
    pub table: Vec<UnixEntry>,
}

/// The views of some host halves.
pub open spec fn unix_tables(s: Seq<Unixlib>) -> Seq<Seq<UnixEntry>> {
    Seq::new(s.len(), |i: int| s[i].table@)
}

/// The entries of the host half of `ntdll`.
pub open spec fn ntdll_table() -> Seq<UnixEntry> {
    seq![
        UnixEntry::LoadSoDll,
        UnixEntry::UnwindBuiltinDll,
        UnixEntry::WineDbgWrite,
        UnixEntry::WineServerCall,
        UnixEntry::ServerFdToHandle,
        UnixEntry::ServerHandleToFd,
        UnixEntry::Spawnvp,
        UnixEntry::SystemTimePrecise,
    ]
}

/// The entries of the host half of `ntdll`.
pub fn ntdll_unixlib() -> (t: Vec<UnixEntry>)
    ensures
        t@ == ntdll_table(),
{
    let t: Vec<UnixEntry> = vec![
        UnixEntry::LoadSoDll,
        UnixEntry::UnwindBuiltinDll,
        UnixEntry::WineDbgWrite,
        UnixEntry::WineServerCall,
        UnixEntry::ServerFdToHandle,
        UnixEntry::ServerHandleToFd,
        UnixEntry::Spawnvp,
        UnixEntry::SystemTimePrecise,
    ];
    assert(t@ =~= ntdll_table());
    t
}

} // verus!
