//! The table of NT services by number.

use vstd::prelude::*;

verus! {

/// A call that nothing serves.
pub const STATUS_NOT_IMPLEMENTED: u64 = 0xC000_0002;

/// The number of services that a table has room for.
pub const SSDT_LEN: usize = 0x400;

pub const SSDT_NT_CONTINUE: u32 = 0x43;

pub const SSDT_NT_QUERY_VIRTUAL_MEMORY: u32 = 0x23;

pub const SSDT_NT_ALLOCATE_VIRTUAL_MEMORY: u32 = 0x18;

pub const SSDT_NT_FREE_VIRTUAL_MEMORY: u32 = 0x1e;

pub const SSDT_NT_PROTECT_VIRTUAL_MEMORY: u32 = 0x50;

pub const SSDT_NT_CREATE_KEY: u32 = 0x1d;

pub const SSDT_NT_OPEN_KEY: u32 = 0x12;

pub const SSDT_NT_QUERY_VALUE_KEY: u32 = 0x17;

pub const SSDT_NT_SET_VALUE_KEY: u32 = 0x60;

pub const SSDT_NT_ENUMERATE_KEY: u32 = 0x32;

pub const SSDT_NT_QUERY_KEY: u32 = 0x16;

pub const SSDT_NT_CREATE_FILE: u32 = 0x55;

pub const SSDT_NT_READ_FILE: u32 = 0x6;

pub const SSDT_NT_WRITE_FILE: u32 = 0x8;

pub const SSDT_NT_QUERY_INFORMATION_FILE: u32 = 0x11;

pub const SSDT_NT_QUERY_DIRECTORY_FILE: u32 = 0x35;

pub const SSDT_NT_QUERY_VOLUME_INFORMATION_FILE: u32 = 0x49;

pub const SSDT_NT_CREATE_SECTION: u32 = 0x4a;

pub const SSDT_NT_MAP_VIEW_OF_SECTION: u32 = 0x28;

pub const SSDT_NT_UNMAP_VIEW_OF_SECTION: u32 = 0x2a;

pub const SSDT_NT_QUERY_SECTION: u32 = 0x51;

pub const SSDT_NT_CREATE_THREAD_EX: u32 = 0x85;

pub const SSDT_NT_TERMINATE_THREAD: u32 = 0x53;

pub const SSDT_NT_TERMINATE_PROCESS: u32 = 0x2c;

pub const SSDT_NT_SUSPEND_THREAD: u32 = 0xf5;

pub const SSDT_NT_RESUME_THREAD: u32 = 0x52;

pub const SSDT_NT_QUERY_INFORMATION_THREAD: u32 = 0x25;

pub const SSDT_NT_QUERY_PERFORMANCE_COUNTER: u32 = 0x31;

pub const SSDT_NT_QUERY_SYSTEM_TIME: u32 = 0x5a;

pub const SSDT_NT_GET_NLS_SECTION_PTR: u32 = 0x9b;

pub const SSDT_NT_INITIALIZE_NLS_FILES: u32 = 0x9e;

/// What serves an NT call.
#[derive(Clone, Copy, Debug, PartialEq, Eq, Structural)]
pub enum SyscallHandler {
    /// Nothing: the call is not implemented.
    Unimplemented,
    /// The application, which is told this number.
    Application(u32),
    Continue,
    QueryVirtualMemory,
    AllocateVirtualMemory,
    FreeVirtualMemory,
    ProtectVirtualMemory,
    CreateKey,
    OpenKey,
    QueryValueKey,
    SetValueKey,
    EnumerateKey,
    QueryKey,
    CreateFile,
    ReadFile,
    WriteFile,
    QueryInformationFile,
    QueryDirectoryFile,
    QueryVolumeInformationFile,
    CreateSection,
    MapViewOfSection,
    UnmapViewOfSection,
    QuerySection,
    CreateThreadEx,
    TerminateThread,
    TerminateProcess,
    SuspendThread,
    ResumeThread,
    QueryInformationThread,
    QueryPerformanceCounter,
    QuerySystemTime,
    GetNlsSectionPtr,
    InitializeNlsFiles,
}

/// What serves a call before anything else is installed.
pub open spec fn default_handler(index: u32) -> SyscallHandler {
    if index == SSDT_NT_CONTINUE {
        SyscallHandler::Continue
    } else if index == SSDT_NT_QUERY_VIRTUAL_MEMORY {
        SyscallHandler::QueryVirtualMemory
    } else if index == SSDT_NT_ALLOCATE_VIRTUAL_MEMORY {
        SyscallHandler::AllocateVirtualMemory
    } else if index == SSDT_NT_FREE_VIRTUAL_MEMORY {
        SyscallHandler::FreeVirtualMemory
    } else if index == SSDT_NT_PROTECT_VIRTUAL_MEMORY {
        SyscallHandler::ProtectVirtualMemory
    } else if index == SSDT_NT_CREATE_KEY {
        SyscallHandler::CreateKey
    } else if index == SSDT_NT_OPEN_KEY {
        SyscallHandler::OpenKey
    } else if index == SSDT_NT_QUERY_VALUE_KEY {
        SyscallHandler::QueryValueKey
    } else if index == SSDT_NT_SET_VALUE_KEY {
        SyscallHandler::SetValueKey
    } else if index == SSDT_NT_ENUMERATE_KEY {
        SyscallHandler::EnumerateKey
    } else if index == SSDT_NT_QUERY_KEY {
        SyscallHandler::QueryKey
    } else if index == SSDT_NT_CREATE_FILE {
        SyscallHandler::CreateFile
    } else if index == SSDT_NT_READ_FILE {
        SyscallHandler::ReadFile
    } else if index == SSDT_NT_WRITE_FILE {
        SyscallHandler::WriteFile
    } else if index == SSDT_NT_QUERY_INFORMATION_FILE {
        SyscallHandler::QueryInformationFile
    } else if index == SSDT_NT_QUERY_DIRECTORY_FILE {
        SyscallHandler::QueryDirectoryFile
    } else if index == SSDT_NT_QUERY_VOLUME_INFORMATION_FILE {
        SyscallHandler::QueryVolumeInformationFile
    } else if index == SSDT_NT_CREATE_SECTION {
        SyscallHandler::CreateSection
    } else if index == SSDT_NT_MAP_VIEW_OF_SECTION {
        SyscallHandler::MapViewOfSection
    } else if index == SSDT_NT_UNMAP_VIEW_OF_SECTION {
        SyscallHandler::UnmapViewOfSection
    } else if index == SSDT_NT_QUERY_SECTION {
        SyscallHandler::QuerySection
    } else if index == SSDT_NT_CREATE_THREAD_EX {
        SyscallHandler::CreateThreadEx
    } else if index == SSDT_NT_TERMINATE_THREAD {
        SyscallHandler::TerminateThread
    } else if index == SSDT_NT_TERMINATE_PROCESS {
        SyscallHandler::TerminateProcess
    } else if index == SSDT_NT_SUSPEND_THREAD {
        SyscallHandler::SuspendThread
    } else if index == SSDT_NT_RESUME_THREAD {
        SyscallHandler::ResumeThread
    } else if index == SSDT_NT_QUERY_INFORMATION_THREAD {
        SyscallHandler::QueryInformationThread
    } else if index == SSDT_NT_QUERY_PERFORMANCE_COUNTER {
        SyscallHandler::QueryPerformanceCounter
    } else if index == SSDT_NT_QUERY_SYSTEM_TIME {
        SyscallHandler::QuerySystemTime
    } else if index == SSDT_NT_GET_NLS_SECTION_PTR {
        SyscallHandler::GetNlsSectionPtr
    } else if index == SSDT_NT_INITIALIZE_NLS_FILES {
        SyscallHandler::InitializeNlsFiles
    } else {
        SyscallHandler::Unimplemented
    }
}

/// What serves a call before anything else is installed.
fn handler_for(index: u32) -> (h: SyscallHandler)
    ensures
        h == default_handler(index),
{
    if index == SSDT_NT_CONTINUE {
        SyscallHandler::Continue
    } else if index == SSDT_NT_QUERY_VIRTUAL_MEMORY {
        SyscallHandler::QueryVirtualMemory
    } else if index == SSDT_NT_ALLOCATE_VIRTUAL_MEMORY {
        SyscallHandler::AllocateVirtualMemory
    } else if index == SSDT_NT_FREE_VIRTUAL_MEMORY {
        SyscallHandler::FreeVirtualMemory
    } else if index == SSDT_NT_PROTECT_VIRTUAL_MEMORY {
        SyscallHandler::ProtectVirtualMemory
    } else if index == SSDT_NT_CREATE_KEY {
        SyscallHandler::CreateKey
    } else if index == SSDT_NT_OPEN_KEY {
        SyscallHandler::OpenKey
    } else if index == SSDT_NT_QUERY_VALUE_KEY {
        SyscallHandler::QueryValueKey
    } else if index == SSDT_NT_SET_VALUE_KEY {
        SyscallHandler::SetValueKey
    } else if index == SSDT_NT_ENUMERATE_KEY {
        SyscallHandler::EnumerateKey
    } else if index == SSDT_NT_QUERY_KEY {
        SyscallHandler::QueryKey
    } else if index == SSDT_NT_CREATE_FILE {
        SyscallHandler::CreateFile
    } else if index == SSDT_NT_READ_FILE {
        SyscallHandler::ReadFile
    } else if index == SSDT_NT_WRITE_FILE {
        SyscallHandler::WriteFile
    } else if index == SSDT_NT_QUERY_INFORMATION_FILE {
        SyscallHandler::QueryInformationFile
    } else if index == SSDT_NT_QUERY_DIRECTORY_FILE {
        SyscallHandler::QueryDirectoryFile
    } else if index == SSDT_NT_QUERY_VOLUME_INFORMATION_FILE {
        SyscallHandler::QueryVolumeInformationFile
    } else if index == SSDT_NT_CREATE_SECTION {
        SyscallHandler::CreateSection
    } else if index == SSDT_NT_MAP_VIEW_OF_SECTION {
        SyscallHandler::MapViewOfSection
    } else if index == SSDT_NT_UNMAP_VIEW_OF_SECTION {
        SyscallHandler::UnmapViewOfSection
    } else if index == SSDT_NT_QUERY_SECTION {
        SyscallHandler::QuerySection
    } else if index == SSDT_NT_CREATE_THREAD_EX {
        SyscallHandler::CreateThreadEx
    } else if index == SSDT_NT_TERMINATE_THREAD {
        SyscallHandler::TerminateThread
    } else if index == SSDT_NT_TERMINATE_PROCESS {
        SyscallHandler::TerminateProcess
    } else if index == SSDT_NT_SUSPEND_THREAD {
        SyscallHandler::SuspendThread
    } else if index == SSDT_NT_RESUME_THREAD {
        SyscallHandler::ResumeThread
    } else if index == SSDT_NT_QUERY_INFORMATION_THREAD {
        SyscallHandler::QueryInformationThread
    } else if index == SSDT_NT_QUERY_PERFORMANCE_COUNTER {
        SyscallHandler::QueryPerformanceCounter
    } else if index == SSDT_NT_QUERY_SYSTEM_TIME {
        SyscallHandler::QuerySystemTime
    } else if index == SSDT_NT_GET_NLS_SECTION_PTR {
        SyscallHandler::GetNlsSectionPtr
    } else if index == SSDT_NT_INITIALIZE_NLS_FILES {
        SyscallHandler::InitializeNlsFiles
    } else {
        SyscallHandler::Unimplemented
    }
}

/// The services by number.
pub struct Ssdt {
    pub handlers: Vec<SyscallHandler>,
}

/// What serves the call with a number; a number outside the table is not
/// implemented.
pub open spec fn handler_at(t: Seq<SyscallHandler>, index: u32) -> SyscallHandler {
    if index < t.len() {
        t[index as int]
    } else {
        SyscallHandler::Unimplemented
    }
}

/// The table with a handler installed; a number outside the table is ignored.
pub open spec fn with_handler(t: Seq<SyscallHandler>, index: u32, h: SyscallHandler) -> Seq<
    SyscallHandler,
> {
    if index < t.len() {
        t.update(index as int, h)
    } else {
        t
    }
}

/// The table before anything else is installed.
pub open spec fn default_table() -> Seq<SyscallHandler> {
    Seq::new(SSDT_LEN as nat, |i: int| default_handler(i as u32))
}

/// A handler installed in the table serves its number, and no other number is
/// served differently.
pub proof fn lemma_installed(t: Seq<SyscallHandler>, index: u32, h: SyscallHandler, other: u32)
    ensures
        index < t.len() ==> handler_at(with_handler(t, index, h), index) == h,
        other != index ==> handler_at(with_handler(t, index, h), other) == handler_at(t, other),
{
}

impl View for Ssdt {
    type V = Seq<SyscallHandler>;

    open spec fn view(&self) -> Seq<SyscallHandler> {
        self.handlers@
    }
}

impl Ssdt {
    /// The table before anything else is installed.
    pub fn new() -> (t: Ssdt)
        ensures
            t@ == default_table(),
    {
        let mut handlers: Vec<SyscallHandler> = Vec::new();
        let mut i: u32 = 0;
        while i < 0x400
            invariant
                i <= 0x400,
                handlers.len() == i,
                forall|j: int| 0 <= j < i ==> #[trigger] handlers@[j] == default_handler(j as u32),
            decreases 0x400 - i,
        {
            handlers.push(handler_for(i));
            i = i + 1;
        }
        assert(handlers@ =~= default_table());
        Ssdt { handlers }
    }

    /// Install a handler.
    pub fn set(&mut self, index: u32, h: SyscallHandler)
        ensures
            final(self)@ == with_handler(old(self)@, index, h),
    {
        let i: usize = index as usize;
        if i < self.handlers.len() {
            self.handlers.set(i, h);
        }
    }

    /// What serves the call with a number.
    pub fn handler(&self, index: u32) -> (h: SyscallHandler)
        ensures
            h == handler_at(self@, index),
    {
        let i: usize = index as usize;
        if i < self.handlers.len() {
            self.handlers[i]
        } else {
            SyscallHandler::Unimplemented
        }
    }
}

} // verus!
