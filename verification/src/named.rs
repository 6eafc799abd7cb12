//! Services that are bound by the name of their symbol.

use vstd::prelude::*;

use crate::sync::{SignalOp, SyncKind};
use crate::text::str_eq;

verus! {

/// A variable of the C runtime that is reached through an accessor.
#[derive(Clone, Copy, Debug, PartialEq, Eq, Structural)]
pub enum RuntimeVar {
    Fmode,
    Commode,
    Acmdln,
    Wcmdln,
    Argc,
    Argv,
    Wargv,
}

impl RuntimeVar {
    /// The symbol of the accessor.
    pub open spec fn accessor(self) -> Seq<char> {
        match self {
            RuntimeVar::Fmode => "__p__fmode"@,
            RuntimeVar::Commode => "__p__commode"@,
            RuntimeVar::Acmdln => "__p__acmdln"@,
            RuntimeVar::Wcmdln => "__p__wcmdln"@,
            RuntimeVar::Argc => "__p___argc"@,
            RuntimeVar::Argv => "__p___argv"@,
            RuntimeVar::Wargv => "__p___wargv"@,
        }
    }

    /// The symbol of the accessor.
    pub fn accessor_name(self) -> (r: &'static str)
        ensures
            r@ == self.accessor(),
    {
        match self {
            RuntimeVar::Fmode => "__p__fmode",
            RuntimeVar::Commode => "__p__commode",
            RuntimeVar::Acmdln => "__p__acmdln",
            RuntimeVar::Wcmdln => "__p__wcmdln",
            RuntimeVar::Argc => "__p___argc",
            RuntimeVar::Argv => "__p___argv",
            RuntimeVar::Wargv => "__p___wargv",
        }
    }
}

/// A service that is bound by the name of its symbol.
#[derive(Clone, Copy, Debug, PartialEq, Eq, Structural)]
pub enum Named {
    CreateThread { runtime: bool },
    ExitThread { runtime: bool },
    TerminateThread,
    ResumeThread,
    SuspendThread,
    GetExitCodeThread,
    SleepEx,
    SwitchToThread,
    SlotAlloc { fiber: bool },
    SlotFree { fiber: bool },
    SlotGet { fiber: bool },
    SlotSet { fiber: bool },
    RuntimeVar { var: RuntimeVar },
    CreateSync { kind: SyncKind, ex: bool, wide: bool },
    OpenSync { wide: bool },
    Signal { op: SignalOp },
    WaitSingle { ex: bool },
    WaitMultiple { ex: bool },
    RegCreate { wide: bool },
    RegOpen { wide: bool },
    RegSet { wide: bool },
    RegQuery { wide: bool },
    RegClose,
    RegDeleteValue { wide: bool },
    RegDeleteKey { ex: bool, wide: bool },
    RegEnumKey { wide: bool },
    RegEnumValue { wide: bool },
    RegQueryInfo,
    PostMessage,
    PostThreadMessage,
    TranslateMessage,
    WindowLong { set: bool },
    ClassName { wide: bool },
    IsWindow,
    WindowRect,
    ShowWindow,
    SetProp { wide: bool },
    GetProp { wide: bool },
    RemoveProp { wide: bool },
    MoveWindow,
    SetWindowPos,
    SetFocus,
    GetFocus,
    SetCapture,
    GetCapture,
    ReleaseCapture,
    KeyState,
    CursorPos,
    GetDc,
    Invalidate,
    Validate,
    UpdateRect,
    CreateFont,
    GetObject { wide: bool },
    SaveDc,
    RestoreDc,
    SetBackground { mode: bool },
    VirtualProtect,
    VirtualQuery,
    SystemTime,
    DisableThreadCalls,
    LoadLibrary { ex: bool, wide: bool },
    FindFirst { ex: bool, wide: bool },
    FindNext,
    FindClose,
    FullPath,
    MoveFile { ex: bool, wide: bool },
    CopyFile { wide: bool },
    FileTime,
}

/// The services on threads, their storage, and variables of the C runtime, by name.
pub open spec fn thread_named(name: Seq<char>) -> Option<Named> {
    if name == "CreateThread"@ {
        Some(Named::CreateThread { runtime: false })
    } else if name == "_beginthreadex"@ {
        Some(Named::CreateThread { runtime: true })
    } else if name == "ExitThread"@ {
        Some(Named::ExitThread { runtime: false })
    } else if name == "_endthreadex"@ {
        Some(Named::ExitThread { runtime: true })
    } else if name == "TerminateThread"@ {
        Some(Named::TerminateThread)
    } else if name == "ResumeThread"@ {
        Some(Named::ResumeThread)
    } else if name == "SuspendThread"@ {
        Some(Named::SuspendThread)
    } else if name == "GetExitCodeThread"@ {
        Some(Named::GetExitCodeThread)
    } else if name == "SleepEx"@ {
        Some(Named::SleepEx)
    } else if name == "SwitchToThread"@ {
        Some(Named::SwitchToThread)
    } else if name == "TlsAlloc"@ {
        Some(Named::SlotAlloc { fiber: false })
    } else if name == "FlsAlloc"@ {
        Some(Named::SlotAlloc { fiber: true })
    } else if name == "TlsFree"@ {
        Some(Named::SlotFree { fiber: false })
    } else if name == "FlsFree"@ {
        Some(Named::SlotFree { fiber: true })
    } else if name == "TlsGetValue"@ {
        Some(Named::SlotGet { fiber: false })
    } else if name == "FlsGetValue"@ {
        Some(Named::SlotGet { fiber: true })
    } else if name == "TlsSetValue"@ {
        Some(Named::SlotSet { fiber: false })
    } else if name == "FlsSetValue"@ {
        Some(Named::SlotSet { fiber: true })
    } else if name == "__p__fmode"@ {
        Some(Named::RuntimeVar { var: RuntimeVar::Fmode })
    } else if name == "__p__commode"@ {
        Some(Named::RuntimeVar { var: RuntimeVar::Commode })
    } else if name == "__p__acmdln"@ {
        Some(Named::RuntimeVar { var: RuntimeVar::Acmdln })
    } else if name == "__p__wcmdln"@ {
        Some(Named::RuntimeVar { var: RuntimeVar::Wcmdln })
    } else if name == "__p___argc"@ {
        Some(Named::RuntimeVar { var: RuntimeVar::Argc })
    } else if name == "__p___argv"@ {
        Some(Named::RuntimeVar { var: RuntimeVar::Argv })
    } else if name == "__p___wargv"@ {
        Some(Named::RuntimeVar { var: RuntimeVar::Wargv })
    } else {
        None
    }
}

/// The services on threads, their storage, and variables of the C runtime, by name.
fn find_thread(name: &str) -> (r: Option<Named>)
    ensures
        r == thread_named(name@),
{
    if str_eq(name, "CreateThread") {
        Some(Named::CreateThread { runtime: false })
    } else if str_eq(name, "_beginthreadex") {
        Some(Named::CreateThread { runtime: true })
    } else if str_eq(name, "ExitThread") {
        Some(Named::ExitThread { runtime: false })
    } else if str_eq(name, "_endthreadex") {
        Some(Named::ExitThread { runtime: true })
    } else if str_eq(name, "TerminateThread") {
        Some(Named::TerminateThread)
    } else if str_eq(name, "ResumeThread") {
        Some(Named::ResumeThread)
    } else if str_eq(name, "SuspendThread") {
        Some(Named::SuspendThread)
    } else if str_eq(name, "GetExitCodeThread") {
        Some(Named::GetExitCodeThread)
    } else if str_eq(name, "SleepEx") {
        Some(Named::SleepEx)
    } else if str_eq(name, "SwitchToThread") {
        Some(Named::SwitchToThread)
    } else if str_eq(name, "TlsAlloc") {
        Some(Named::SlotAlloc { fiber: false })
    } else if str_eq(name, "FlsAlloc") {
        Some(Named::SlotAlloc { fiber: true })
    } else if str_eq(name, "TlsFree") {
        Some(Named::SlotFree { fiber: false })
    } else if str_eq(name, "FlsFree") {
        Some(Named::SlotFree { fiber: true })
    } else if str_eq(name, "TlsGetValue") {
        Some(Named::SlotGet { fiber: false })
    } else if str_eq(name, "FlsGetValue") {
        Some(Named::SlotGet { fiber: true })
    } else if str_eq(name, "TlsSetValue") {
        Some(Named::SlotSet { fiber: false })
    } else if str_eq(name, "FlsSetValue") {
        Some(Named::SlotSet { fiber: true })
    } else if str_eq(name, "__p__fmode") {
        Some(Named::RuntimeVar { var: RuntimeVar::Fmode })
    } else if str_eq(name, "__p__commode") {
        Some(Named::RuntimeVar { var: RuntimeVar::Commode })
    } else if str_eq(name, "__p__acmdln") {
        Some(Named::RuntimeVar { var: RuntimeVar::Acmdln })
    } else if str_eq(name, "__p__wcmdln") {
        Some(Named::RuntimeVar { var: RuntimeVar::Wcmdln })
    } else if str_eq(name, "__p___argc") {
        Some(Named::RuntimeVar { var: RuntimeVar::Argc })
    } else if str_eq(name, "__p___argv") {
        Some(Named::RuntimeVar { var: RuntimeVar::Argv })
    } else if str_eq(name, "__p___wargv") {
        Some(Named::RuntimeVar { var: RuntimeVar::Wargv })
    } else {
        None
    }
}

/// The services on objects that threads wait for, by name.
pub open spec fn sync_named(name: Seq<char>) -> Option<Named> {
    if name == "CreateEventW"@ {
        Some(Named::CreateSync { kind: SyncKind::Event, ex: false, wide: true })
    } else if name == "CreateEventA"@ {
        Some(Named::CreateSync { kind: SyncKind::Event, ex: false, wide: false })
    } else if name == "CreateEventExW"@ {
        Some(Named::CreateSync { kind: SyncKind::Event, ex: true, wide: true })
    } else if name == "CreateEventExA"@ {
        Some(Named::CreateSync { kind: SyncKind::Event, ex: true, wide: false })
    } else if name == "CreateMutexW"@ {
        Some(Named::CreateSync { kind: SyncKind::Mutex, ex: false, wide: true })
    } else if name == "CreateMutexA"@ {
        Some(Named::CreateSync { kind: SyncKind::Mutex, ex: false, wide: false })
    } else if name == "CreateMutexExW"@ {
        Some(Named::CreateSync { kind: SyncKind::Mutex, ex: true, wide: true })
    } else if name == "CreateMutexExA"@ {
        Some(Named::CreateSync { kind: SyncKind::Mutex, ex: true, wide: false })
    } else if name == "CreateSemaphoreW"@ {
        Some(Named::CreateSync { kind: SyncKind::Semaphore, ex: false, wide: true })
    } else if name == "CreateSemaphoreA"@ {
        Some(Named::CreateSync { kind: SyncKind::Semaphore, ex: false, wide: false })
    } else if name == "CreateSemaphoreExW"@ {
        Some(Named::CreateSync { kind: SyncKind::Semaphore, ex: true, wide: true })
    } else if name == "CreateSemaphoreExA"@ {
        Some(Named::CreateSync { kind: SyncKind::Semaphore, ex: true, wide: false })
    } else if name == "CreateWaitableTimerW"@ {
        Some(Named::CreateSync { kind: SyncKind::Timer, ex: false, wide: true })
    } else if name == "CreateWaitableTimerA"@ {
        Some(Named::CreateSync { kind: SyncKind::Timer, ex: false, wide: false })
    } else if name == "CreateWaitableTimerExW"@ {
        Some(Named::CreateSync { kind: SyncKind::Timer, ex: true, wide: true })
    } else if name == "CreateWaitableTimerExA"@ {
        Some(Named::CreateSync { kind: SyncKind::Timer, ex: true, wide: false })
    } else if name == "OpenEventW"@ {
        Some(Named::OpenSync { wide: true })
    } else if name == "OpenEventA"@ {
        Some(Named::OpenSync { wide: false })
    } else if name == "OpenMutexW"@ {
        Some(Named::OpenSync { wide: true })
    } else if name == "OpenMutexA"@ {
        Some(Named::OpenSync { wide: false })
    } else if name == "OpenSemaphoreW"@ {
        Some(Named::OpenSync { wide: true })
    } else if name == "OpenSemaphoreA"@ {
        Some(Named::OpenSync { wide: false })
    } else if name == "OpenWaitableTimerW"@ {
        Some(Named::OpenSync { wide: true })
    } else if name == "OpenWaitableTimerA"@ {
        Some(Named::OpenSync { wide: false })
    } else if name == "SetEvent"@ {
        Some(Named::Signal { op: SignalOp::SetEvent })
    } else if name == "ResetEvent"@ {
        Some(Named::Signal { op: SignalOp::ResetEvent })
    } else if name == "PulseEvent"@ {
        Some(Named::Signal { op: SignalOp::PulseEvent })
    } else if name == "ReleaseMutex"@ {
        Some(Named::Signal { op: SignalOp::ReleaseMutex })
    } else if name == "ReleaseSemaphore"@ {
        Some(Named::Signal { op: SignalOp::ReleaseSemaphore })
    } else if name == "WaitForSingleObject"@ {
        Some(Named::WaitSingle { ex: false })
    } else if name == "WaitForSingleObjectEx"@ {
        Some(Named::WaitSingle { ex: true })
    } else if name == "WaitForMultipleObjects"@ {
        Some(Named::WaitMultiple { ex: false })
    } else if name == "WaitForMultipleObjectsEx"@ {
        Some(Named::WaitMultiple { ex: true })
    } else {
        None
    }
}

/// The services on objects that threads wait for, by name.
fn find_sync(name: &str) -> (r: Option<Named>)
    ensures
        r == sync_named(name@),
{
    if str_eq(name, "CreateEventW") {
        Some(Named::CreateSync { kind: SyncKind::Event, ex: false, wide: true })
    } else if str_eq(name, "CreateEventA") {
        Some(Named::CreateSync { kind: SyncKind::Event, ex: false, wide: false })
    } else if str_eq(name, "CreateEventExW") {
        Some(Named::CreateSync { kind: SyncKind::Event, ex: true, wide: true })
    } else if str_eq(name, "CreateEventExA") {
        Some(Named::CreateSync { kind: SyncKind::Event, ex: true, wide: false })
    } else if str_eq(name, "CreateMutexW") {
        Some(Named::CreateSync { kind: SyncKind::Mutex, ex: false, wide: true })
    } else if str_eq(name, "CreateMutexA") {
        Some(Named::CreateSync { kind: SyncKind::Mutex, ex: false, wide: false })
    } else if str_eq(name, "CreateMutexExW") {
        Some(Named::CreateSync { kind: SyncKind::Mutex, ex: true, wide: true })
    } else if str_eq(name, "CreateMutexExA") {
        Some(Named::CreateSync { kind: SyncKind::Mutex, ex: true, wide: false })
    } else if str_eq(name, "CreateSemaphoreW") {
        Some(Named::CreateSync { kind: SyncKind::Semaphore, ex: false, wide: true })
    } else if str_eq(name, "CreateSemaphoreA") {
        Some(Named::CreateSync { kind: SyncKind::Semaphore, ex: false, wide: false })
    } else if str_eq(name, "CreateSemaphoreExW") {
        Some(Named::CreateSync { kind: SyncKind::Semaphore, ex: true, wide: true })
    } else if str_eq(name, "CreateSemaphoreExA") {
        Some(Named::CreateSync { kind: SyncKind::Semaphore, ex: true, wide: false })
    } else if str_eq(name, "CreateWaitableTimerW") {
        Some(Named::CreateSync { kind: SyncKind::Timer, ex: false, wide: true })
    } else if str_eq(name, "CreateWaitableTimerA") {
        Some(Named::CreateSync { kind: SyncKind::Timer, ex: false, wide: false })
    } else if str_eq(name, "CreateWaitableTimerExW") {
        Some(Named::CreateSync { kind: SyncKind::Timer, ex: true, wide: true })
    } else if str_eq(name, "CreateWaitableTimerExA") {
        Some(Named::CreateSync { kind: SyncKind::Timer, ex: true, wide: false })
    } else if str_eq(name, "OpenEventW") {
        Some(Named::OpenSync { wide: true })
    } else if str_eq(name, "OpenEventA") {
        Some(Named::OpenSync { wide: false })
    } else if str_eq(name, "OpenMutexW") {
        Some(Named::OpenSync { wide: true })
    } else if str_eq(name, "OpenMutexA") {
        Some(Named::OpenSync { wide: false })
    } else if str_eq(name, "OpenSemaphoreW") {
        Some(Named::OpenSync { wide: true })
    } else if str_eq(name, "OpenSemaphoreA") {
        Some(Named::OpenSync { wide: false })
    } else if str_eq(name, "OpenWaitableTimerW") {
        Some(Named::OpenSync { wide: true })
    } else if str_eq(name, "OpenWaitableTimerA") {
        Some(Named::OpenSync { wide: false })
    } else if str_eq(name, "SetEvent") {
        Some(Named::Signal { op: SignalOp::SetEvent })
    } else if str_eq(name, "ResetEvent") {
        Some(Named::Signal { op: SignalOp::ResetEvent })
    } else if str_eq(name, "PulseEvent") {
        Some(Named::Signal { op: SignalOp::PulseEvent })
    } else if str_eq(name, "ReleaseMutex") {
        Some(Named::Signal { op: SignalOp::ReleaseMutex })
    } else if str_eq(name, "ReleaseSemaphore") {
        Some(Named::Signal { op: SignalOp::ReleaseSemaphore })
    } else if str_eq(name, "WaitForSingleObject") {
        Some(Named::WaitSingle { ex: false })
    } else if str_eq(name, "WaitForSingleObjectEx") {
        Some(Named::WaitSingle { ex: true })
    } else if str_eq(name, "WaitForMultipleObjects") {
        Some(Named::WaitMultiple { ex: false })
    } else if str_eq(name, "WaitForMultipleObjectsEx") {
        Some(Named::WaitMultiple { ex: true })
    } else {
        None
    }
}

/// The services on the registry, by name.
pub open spec fn registry_named(name: Seq<char>) -> Option<Named> {
    if name == "RegCreateKeyExW"@ {
        Some(Named::RegCreate { wide: true })
    } else if name == "RegCreateKeyExA"@ {
        Some(Named::RegCreate { wide: false })
    } else if name == "RegOpenKeyExW"@ {
        Some(Named::RegOpen { wide: true })
    } else if name == "RegOpenKeyExA"@ {
        Some(Named::RegOpen { wide: false })
    } else if name == "RegSetValueExW"@ {
        Some(Named::RegSet { wide: true })
    } else if name == "RegSetValueExA"@ {
        Some(Named::RegSet { wide: false })
    } else if name == "RegQueryValueExW"@ {
        Some(Named::RegQuery { wide: true })
    } else if name == "RegQueryValueExA"@ {
        Some(Named::RegQuery { wide: false })
    } else if name == "RegCloseKey"@ {
        Some(Named::RegClose)
    } else if name == "RegDeleteValueW"@ {
        Some(Named::RegDeleteValue { wide: true })
    } else if name == "RegDeleteValueA"@ {
        Some(Named::RegDeleteValue { wide: false })
    } else if name == "RegDeleteKeyW"@ {
        Some(Named::RegDeleteKey { ex: false, wide: true })
    } else if name == "RegDeleteKeyA"@ {
        Some(Named::RegDeleteKey { ex: false, wide: false })
    } else if name == "RegDeleteKeyExW"@ {
        Some(Named::RegDeleteKey { ex: true, wide: true })
    } else if name == "RegDeleteKeyExA"@ {
        Some(Named::RegDeleteKey { ex: true, wide: false })
    } else if name == "RegEnumKeyExW"@ {
        Some(Named::RegEnumKey { wide: true })
    } else if name == "RegEnumKeyExA"@ {
        Some(Named::RegEnumKey { wide: false })
    } else if name == "RegEnumValueW"@ {
        Some(Named::RegEnumValue { wide: true })
    } else if name == "RegEnumValueA"@ {
        Some(Named::RegEnumValue { wide: false })
    } else if name == "RegQueryInfoKeyW"@ {
        Some(Named::RegQueryInfo)
    } else if name == "RegQueryInfoKeyA"@ {
        Some(Named::RegQueryInfo)
    } else {
        None
    }
}

/// The services on the registry, by name.
fn find_registry(name: &str) -> (r: Option<Named>)
    ensures
        r == registry_named(name@),
{
    if str_eq(name, "RegCreateKeyExW") {
        Some(Named::RegCreate { wide: true })
    } else if str_eq(name, "RegCreateKeyExA") {
        Some(Named::RegCreate { wide: false })
    } else if str_eq(name, "RegOpenKeyExW") {
        Some(Named::RegOpen { wide: true })
    } else if str_eq(name, "RegOpenKeyExA") {
        Some(Named::RegOpen { wide: false })
    } else if str_eq(name, "RegSetValueExW") {
        Some(Named::RegSet { wide: true })
    } else if str_eq(name, "RegSetValueExA") {
        Some(Named::RegSet { wide: false })
    } else if str_eq(name, "RegQueryValueExW") {
        Some(Named::RegQuery { wide: true })
    } else if str_eq(name, "RegQueryValueExA") {
        Some(Named::RegQuery { wide: false })
    } else if str_eq(name, "RegCloseKey") {
        Some(Named::RegClose)
    } else if str_eq(name, "RegDeleteValueW") {
        Some(Named::RegDeleteValue { wide: true })
    } else if str_eq(name, "RegDeleteValueA") {
        Some(Named::RegDeleteValue { wide: false })
    } else if str_eq(name, "RegDeleteKeyW") {
        Some(Named::RegDeleteKey { ex: false, wide: true })
    } else if str_eq(name, "RegDeleteKeyA") {
        Some(Named::RegDeleteKey { ex: false, wide: false })
    } else if str_eq(name, "RegDeleteKeyExW") {
        Some(Named::RegDeleteKey { ex: true, wide: true })
    } else if str_eq(name, "RegDeleteKeyExA") {
        Some(Named::RegDeleteKey { ex: true, wide: false })
    } else if str_eq(name, "RegEnumKeyExW") {
        Some(Named::RegEnumKey { wide: true })
    } else if str_eq(name, "RegEnumKeyExA") {
        Some(Named::RegEnumKey { wide: false })
    } else if str_eq(name, "RegEnumValueW") {
        Some(Named::RegEnumValue { wide: true })
    } else if str_eq(name, "RegEnumValueA") {
        Some(Named::RegEnumValue { wide: false })
    } else if str_eq(name, "RegQueryInfoKeyW") {
        Some(Named::RegQueryInfo)
    } else if str_eq(name, "RegQueryInfoKeyA") {
        Some(Named::RegQueryInfo)
    } else {
        None
    }
}

/// The services on windows and their messages, by name.
pub open spec fn window_named(name: Seq<char>) -> Option<Named> {
    if name == "PostMessageW"@ {
        Some(Named::PostMessage)
    } else if name == "PostMessageA"@ {
        Some(Named::PostMessage)
    } else if name == "PostThreadMessageW"@ {
        Some(Named::PostThreadMessage)
    } else if name == "PostThreadMessageA"@ {
        Some(Named::PostThreadMessage)
    } else if name == "TranslateMessage"@ {
        Some(Named::TranslateMessage)
    } else if name == "GetWindowLongW"@ {
        Some(Named::WindowLong { set: false })
    } else if name == "GetWindowLongA"@ {
        Some(Named::WindowLong { set: false })
    } else if name == "GetWindowLongPtrW"@ {
        Some(Named::WindowLong { set: false })
    } else if name == "GetWindowLongPtrA"@ {
        Some(Named::WindowLong { set: false })
    } else if name == "SetWindowLongW"@ {
        Some(Named::WindowLong { set: true })
    } else if name == "SetWindowLongA"@ {
        Some(Named::WindowLong { set: true })
    } else if name == "SetWindowLongPtrW"@ {
        Some(Named::WindowLong { set: true })
    } else if name == "SetWindowLongPtrA"@ {
        Some(Named::WindowLong { set: true })
    } else if name == "GetClassNameW"@ {
        Some(Named::ClassName { wide: true })
    } else if name == "GetClassNameA"@ {
        Some(Named::ClassName { wide: false })
    } else if name == "IsWindow"@ {
        Some(Named::IsWindow)
    } else if name == "GetWindowRect"@ {
        Some(Named::WindowRect)
    } else if name == "ShowWindow"@ {
        Some(Named::ShowWindow)
    } else if name == "SetPropW"@ {
        Some(Named::SetProp { wide: true })
    } else if name == "SetPropA"@ {
        Some(Named::SetProp { wide: false })
    } else if name == "GetPropW"@ {
        Some(Named::GetProp { wide: true })
    } else if name == "GetPropA"@ {
        Some(Named::GetProp { wide: false })
    } else if name == "RemovePropW"@ {
        Some(Named::RemoveProp { wide: true })
    } else if name == "RemovePropA"@ {
        Some(Named::RemoveProp { wide: false })
    } else if name == "MoveWindow"@ {
        Some(Named::MoveWindow)
    } else if name == "SetWindowPos"@ {
        Some(Named::SetWindowPos)
    } else {
        None
    }
}

/// The services on windows and their messages, by name.
fn find_window(name: &str) -> (r: Option<Named>)
    ensures
        r == window_named(name@),
{
    if str_eq(name, "PostMessageW") {
        Some(Named::PostMessage)
    } else if str_eq(name, "PostMessageA") {
        Some(Named::PostMessage)
    } else if str_eq(name, "PostThreadMessageW") {
        Some(Named::PostThreadMessage)
    } else if str_eq(name, "PostThreadMessageA") {
        Some(Named::PostThreadMessage)
    } else if str_eq(name, "TranslateMessage") {
        Some(Named::TranslateMessage)
    } else if str_eq(name, "GetWindowLongW") {
        Some(Named::WindowLong { set: false })
    } else if str_eq(name, "GetWindowLongA") {
        Some(Named::WindowLong { set: false })
    } else if str_eq(name, "GetWindowLongPtrW") {
        Some(Named::WindowLong { set: false })
    } else if str_eq(name, "GetWindowLongPtrA") {
        Some(Named::WindowLong { set: false })
    } else if str_eq(name, "SetWindowLongW") {
        Some(Named::WindowLong { set: true })
    } else if str_eq(name, "SetWindowLongA") {
        Some(Named::WindowLong { set: true })
    } else if str_eq(name, "SetWindowLongPtrW") {
        Some(Named::WindowLong { set: true })
    } else if str_eq(name, "SetWindowLongPtrA") {
        Some(Named::WindowLong { set: true })
    } else if str_eq(name, "GetClassNameW") {
        Some(Named::ClassName { wide: true })
    } else if str_eq(name, "GetClassNameA") {
        Some(Named::ClassName { wide: false })
    } else if str_eq(name, "IsWindow") {
        Some(Named::IsWindow)
    } else if str_eq(name, "GetWindowRect") {
        Some(Named::WindowRect)
    } else if str_eq(name, "ShowWindow") {
        Some(Named::ShowWindow)
    } else if str_eq(name, "SetPropW") {
        Some(Named::SetProp { wide: true })
    } else if str_eq(name, "SetPropA") {
        Some(Named::SetProp { wide: false })
    } else if str_eq(name, "GetPropW") {
        Some(Named::GetProp { wide: true })
    } else if str_eq(name, "GetPropA") {
        Some(Named::GetProp { wide: false })
    } else if str_eq(name, "RemovePropW") {
        Some(Named::RemoveProp { wide: true })
    } else if str_eq(name, "RemovePropA") {
        Some(Named::RemoveProp { wide: false })
    } else if str_eq(name, "MoveWindow") {
        Some(Named::MoveWindow)
    } else if str_eq(name, "SetWindowPos") {
        Some(Named::SetWindowPos)
    } else {
        None
    }
}

/// The services on input and painting, by name.
pub open spec fn input_named(name: Seq<char>) -> Option<Named> {
    if name == "SetFocus"@ {
        Some(Named::SetFocus)
    } else if name == "GetFocus"@ {
        Some(Named::GetFocus)
    } else if name == "SetCapture"@ {
        Some(Named::SetCapture)
    } else if name == "GetCapture"@ {
        Some(Named::GetCapture)
    } else if name == "ReleaseCapture"@ {
        Some(Named::ReleaseCapture)
    } else if name == "GetKeyState"@ {
        Some(Named::KeyState)
    } else if name == "GetAsyncKeyState"@ {
        Some(Named::KeyState)
    } else if name == "GetCursorPos"@ {
        Some(Named::CursorPos)
    } else if name == "GetDC"@ {
        Some(Named::GetDc)
    } else if name == "GetWindowDC"@ {
        Some(Named::GetDc)
    } else if name == "InvalidateRect"@ {
        Some(Named::Invalidate)
    } else if name == "ValidateRect"@ {
        Some(Named::Validate)
    } else if name == "GetUpdateRect"@ {
        Some(Named::UpdateRect)
    } else if name == "CreateFontIndirectW"@ {
        Some(Named::CreateFont)
    } else if name == "GetObjectW"@ {
        Some(Named::GetObject { wide: true })
    } else if name == "GetObjectA"@ {
        Some(Named::GetObject { wide: false })
    } else if name == "SaveDC"@ {
        Some(Named::SaveDc)
    } else if name == "RestoreDC"@ {
        Some(Named::RestoreDc)
    } else if name == "SetBkColor"@ {
        Some(Named::SetBackground { mode: false })
    } else if name == "SetBkMode"@ {
        Some(Named::SetBackground { mode: true })
    } else {
        None
    }
}

/// The services on input and painting, by name.
fn find_input(name: &str) -> (r: Option<Named>)
    ensures
        r == input_named(name@),
{
    if str_eq(name, "SetFocus") {
        Some(Named::SetFocus)
    } else if str_eq(name, "GetFocus") {
        Some(Named::GetFocus)
    } else if str_eq(name, "SetCapture") {
        Some(Named::SetCapture)
    } else if str_eq(name, "GetCapture") {
        Some(Named::GetCapture)
    } else if str_eq(name, "ReleaseCapture") {
        Some(Named::ReleaseCapture)
    } else if str_eq(name, "GetKeyState") {
        Some(Named::KeyState)
    } else if str_eq(name, "GetAsyncKeyState") {
        Some(Named::KeyState)
    } else if str_eq(name, "GetCursorPos") {
        Some(Named::CursorPos)
    } else if str_eq(name, "GetDC") {
        Some(Named::GetDc)
    } else if str_eq(name, "GetWindowDC") {
        Some(Named::GetDc)
    } else if str_eq(name, "InvalidateRect") {
        Some(Named::Invalidate)
    } else if str_eq(name, "ValidateRect") {
        Some(Named::Validate)
    } else if str_eq(name, "GetUpdateRect") {
        Some(Named::UpdateRect)
    } else if str_eq(name, "CreateFontIndirectW") {
        Some(Named::CreateFont)
    } else if str_eq(name, "GetObjectW") {
        Some(Named::GetObject { wide: true })
    } else if str_eq(name, "GetObjectA") {
        Some(Named::GetObject { wide: false })
    } else if str_eq(name, "SaveDC") {
        Some(Named::SaveDc)
    } else if str_eq(name, "RestoreDC") {
        Some(Named::RestoreDc)
    } else if str_eq(name, "SetBkColor") {
        Some(Named::SetBackground { mode: false })
    } else if str_eq(name, "SetBkMode") {
        Some(Named::SetBackground { mode: true })
    } else {
        None
    }
}

/// The services on memory, time, libraries and directories, by name.
pub open spec fn system_named(name: Seq<char>) -> Option<Named> {
    if name == "VirtualProtect"@ {
        Some(Named::VirtualProtect)
    } else if name == "VirtualQuery"@ {
        Some(Named::VirtualQuery)
    } else if name == "GetSystemTime"@ {
        Some(Named::SystemTime)
    } else if name == "GetLocalTime"@ {
        Some(Named::SystemTime)
    } else if name == "DisableThreadLibraryCalls"@ {
        Some(Named::DisableThreadCalls)
    } else if name == "LoadLibraryW"@ {
        Some(Named::LoadLibrary { ex: false, wide: true })
    } else if name == "LoadLibraryExA"@ {
        Some(Named::LoadLibrary { ex: true, wide: false })
    } else if name == "LoadLibraryExW"@ {
        Some(Named::LoadLibrary { ex: true, wide: true })
    } else if name == "FindFirstFileW"@ {
        Some(Named::FindFirst { ex: false, wide: true })
    } else if name == "FindFirstFileA"@ {
        Some(Named::FindFirst { ex: false, wide: false })
    } else if name == "FindFirstFileExW"@ {
        Some(Named::FindFirst { ex: true, wide: true })
    } else if name == "FindFirstFileExA"@ {
        Some(Named::FindFirst { ex: true, wide: false })
    } else if name == "FindNextFileW"@ {
        Some(Named::FindNext)
    } else if name == "FindNextFileA"@ {
        Some(Named::FindNext)
    } else if name == "FindClose"@ {
        Some(Named::FindClose)
    } else if name == "GetFullPathNameW"@ {
        Some(Named::FullPath)
    } else if name == "MoveFileW"@ {
        Some(Named::MoveFile { ex: false, wide: true })
    } else if name == "MoveFileA"@ {
        Some(Named::MoveFile { ex: false, wide: false })
    } else if name == "MoveFileExW"@ {
        Some(Named::MoveFile { ex: true, wide: true })
    } else if name == "MoveFileExA"@ {
        Some(Named::MoveFile { ex: true, wide: false })
    } else if name == "CopyFileW"@ {
        Some(Named::CopyFile { wide: true })
    } else if name == "CopyFileA"@ {
        Some(Named::CopyFile { wide: false })
    } else if name == "SetFileTime"@ {
        Some(Named::FileTime)
    } else {
        None
    }
}

/// The services on memory, time, libraries and directories, by name.
fn find_system(name: &str) -> (r: Option<Named>)
    ensures
        r == system_named(name@),
{
    if str_eq(name, "VirtualProtect") {
        Some(Named::VirtualProtect)
    } else if str_eq(name, "VirtualQuery") {
        Some(Named::VirtualQuery)
    } else if str_eq(name, "GetSystemTime") {
        Some(Named::SystemTime)
    } else if str_eq(name, "GetLocalTime") {
        Some(Named::SystemTime)
    } else if str_eq(name, "DisableThreadLibraryCalls") {
        Some(Named::DisableThreadCalls)
    } else if str_eq(name, "LoadLibraryW") {
        Some(Named::LoadLibrary { ex: false, wide: true })
    } else if str_eq(name, "LoadLibraryExA") {
        Some(Named::LoadLibrary { ex: true, wide: false })
    } else if str_eq(name, "LoadLibraryExW") {
        Some(Named::LoadLibrary { ex: true, wide: true })
    } else if str_eq(name, "FindFirstFileW") {
        Some(Named::FindFirst { ex: false, wide: true })
    } else if str_eq(name, "FindFirstFileA") {
        Some(Named::FindFirst { ex: false, wide: false })
    } else if str_eq(name, "FindFirstFileExW") {
        Some(Named::FindFirst { ex: true, wide: true })
    } else if str_eq(name, "FindFirstFileExA") {
        Some(Named::FindFirst { ex: true, wide: false })
    } else if str_eq(name, "FindNextFileW") {
        Some(Named::FindNext)
    } else if str_eq(name, "FindNextFileA") {
        Some(Named::FindNext)
    } else if str_eq(name, "FindClose") {
        Some(Named::FindClose)
    } else if str_eq(name, "GetFullPathNameW") {
        Some(Named::FullPath)
    } else if str_eq(name, "MoveFileW") {
        Some(Named::MoveFile { ex: false, wide: true })
    } else if str_eq(name, "MoveFileA") {
        Some(Named::MoveFile { ex: false, wide: false })
    } else if str_eq(name, "MoveFileExW") {
        Some(Named::MoveFile { ex: true, wide: true })
    } else if str_eq(name, "MoveFileExA") {
        Some(Named::MoveFile { ex: true, wide: false })
    } else if str_eq(name, "CopyFileW") {
        Some(Named::CopyFile { wide: true })
    } else if str_eq(name, "CopyFileA") {
        Some(Named::CopyFile { wide: false })
    } else if str_eq(name, "SetFileTime") {
        Some(Named::FileTime)
    } else {
        None
    }
}

/// The service that a symbol is bound to.
pub open spec fn service_named(name: Seq<char>) -> Option<Named> {
    if thread_named(name) is Some {
        thread_named(name)
    } else if sync_named(name) is Some {
        sync_named(name)
    } else if registry_named(name) is Some {
        registry_named(name)
    } else if window_named(name) is Some {
        window_named(name)
    } else if input_named(name) is Some {
        input_named(name)
    } else if system_named(name) is Some {
        system_named(name)
    } else {
        None
    }
}

impl Named {
    /// The service that a symbol is bound to.
    pub fn of(name: &str) -> (r: Option<Named>)
        ensures
            r == service_named(name@),
    {
        let r = find_thread(name);
        if r.is_some() {
            return r;
        }
        let r = find_sync(name);
        if r.is_some() {
            return r;
        }
        let r = find_registry(name);
        if r.is_some() {
            return r;
        }
        let r = find_window(name);
        if r.is_some() {
            return r;
        }
        let r = find_input(name);
        if r.is_some() {
            return r;
        }
        let r = find_system(name);
        if r.is_some() {
            return r;
        }
        None
    }

    /// How many stack arguments a 32-bit call pops on return.
    pub open spec fn pops(self) -> u32 {
        match self {
            Named::CreateThread { runtime } => if runtime {
                0
            } else {
                6
            },
            Named::ExitThread { runtime } => if runtime {
                0
            } else {
                1
            },
            Named::TerminateThread => 2,
            Named::ResumeThread => 1,
            Named::SuspendThread => 1,
            Named::GetExitCodeThread => 2,
            Named::SleepEx => 2,
            Named::SwitchToThread => 0,
            Named::SlotAlloc { fiber } => if fiber {
                1
            } else {
                0
            },
            Named::SlotFree { .. } => 1,
            Named::SlotGet { .. } => 1,
            Named::SlotSet { .. } => 2,
            Named::RuntimeVar { .. } => 0,
            Named::CreateSync { kind, ex, .. } => match (kind, ex) {
                (SyncKind::Semaphore, true) => 6,
                (SyncKind::Semaphore, false) => 4,
                (SyncKind::Event, _) => 4,
                (_, true) => 4,
                (_, false) => 3,
            },
            Named::OpenSync { .. } => 3,
            Named::Signal { op } => match op {
                SignalOp::ReleaseSemaphore => 3,
                _ => 1,
            },
            Named::WaitSingle { ex } => if ex {
                3
            } else {
                2
            },
            Named::WaitMultiple { ex } => if ex {
                5
            } else {
                4
            },
            Named::RegCreate { .. } => 9,
            Named::RegOpen { .. } => 5,
            Named::RegSet { .. } => 6,
            Named::RegQuery { .. } => 6,
            Named::RegClose => 1,
            Named::RegDeleteValue { .. } => 2,
            Named::RegDeleteKey { ex, .. } => if ex {
                4
            } else {
                2
            },
            Named::RegEnumKey { .. } => 8,
            Named::RegEnumValue { .. } => 8,
            Named::RegQueryInfo => 12,
            Named::PostMessage => 4,
            Named::PostThreadMessage => 4,
            Named::TranslateMessage => 1,
            Named::WindowLong { set } => if set {
                3
            } else {
                2
            },
            Named::ClassName { .. } => 3,
            Named::IsWindow => 1,
            Named::WindowRect => 2,
            Named::ShowWindow => 2,
            Named::SetProp { .. } => 3,
            Named::GetProp { .. } => 2,
            Named::RemoveProp { .. } => 2,
            Named::MoveWindow => 6,
            Named::SetWindowPos => 7,
            Named::SetFocus => 1,
            Named::GetFocus => 0,
            Named::SetCapture => 1,
            Named::GetCapture => 0,
            Named::ReleaseCapture => 0,
            Named::KeyState => 1,
            Named::CursorPos => 1,
            Named::GetDc => 1,
            Named::Invalidate => 3,
            Named::Validate => 2,
            Named::UpdateRect => 3,
            Named::CreateFont => 1,
            Named::GetObject { .. } => 3,
            Named::SaveDc => 1,
            Named::RestoreDc => 2,
            Named::SetBackground { .. } => 2,
            Named::VirtualProtect => 4,
            Named::VirtualQuery => 3,
            Named::SystemTime => 1,
            Named::DisableThreadCalls => 1,
            Named::LoadLibrary { ex, .. } => if ex {
                3
            } else {
                1
            },
            Named::FindFirst { ex, .. } => if ex {
                6
            } else {
                2
            },
            Named::FindNext => 2,
            Named::FindClose => 1,
            Named::FullPath => 4,
            Named::MoveFile { ex, .. } => if ex {
                3
            } else {
                2
            },
            Named::CopyFile { .. } => 3,
            Named::FileTime => 4,
        }
    }

    /// How many stack arguments a 32-bit call pops on return.
    pub fn argc(self) -> (n: u32)
        ensures
            n == self.pops(),
    {
        match self {
            Named::CreateThread { runtime } => if runtime {
                0
            } else {
                6
            },
            Named::ExitThread { runtime } => if runtime {
                0
            } else {
                1
            },
            Named::TerminateThread => 2,
            Named::ResumeThread => 1,
            Named::SuspendThread => 1,
            Named::GetExitCodeThread => 2,
            Named::SleepEx => 2,
            Named::SwitchToThread => 0,
            Named::SlotAlloc { fiber } => if fiber {
                1
            } else {
                0
            },
            Named::SlotFree { .. } => 1,
            Named::SlotGet { .. } => 1,
            Named::SlotSet { .. } => 2,
            Named::RuntimeVar { .. } => 0,
            Named::CreateSync { kind, ex, .. } => match (kind, ex) {
                (SyncKind::Semaphore, true) => 6,
                (SyncKind::Semaphore, false) => 4,
                (SyncKind::Event, _) => 4,
                (_, true) => 4,
                (_, false) => 3,
            },
            Named::OpenSync { .. } => 3,
            Named::Signal { op } => match op {
                SignalOp::ReleaseSemaphore => 3,
                _ => 1,
            },
            Named::WaitSingle { ex } => if ex {
                3
            } else {
                2
            },
            Named::WaitMultiple { ex } => if ex {
                5
            } else {
                4
            },
            Named::RegCreate { .. } => 9,
            Named::RegOpen { .. } => 5,
            Named::RegSet { .. } => 6,
            Named::RegQuery { .. } => 6,
            Named::RegClose => 1,
            Named::RegDeleteValue { .. } => 2,
            Named::RegDeleteKey { ex, .. } => if ex {
                4
            } else {
                2
            },
            Named::RegEnumKey { .. } => 8,
            Named::RegEnumValue { .. } => 8,
            Named::RegQueryInfo => 12,
            Named::PostMessage => 4,
            Named::PostThreadMessage => 4,
            Named::TranslateMessage => 1,
            Named::WindowLong { set } => if set {
                3
            } else {
                2
            },
            Named::ClassName { .. } => 3,
            Named::IsWindow => 1,
            Named::WindowRect => 2,
            Named::ShowWindow => 2,
            Named::SetProp { .. } => 3,
            Named::GetProp { .. } => 2,
            Named::RemoveProp { .. } => 2,
            Named::MoveWindow => 6,
            Named::SetWindowPos => 7,
            Named::SetFocus => 1,
            Named::GetFocus => 0,
            Named::SetCapture => 1,
            Named::GetCapture => 0,
            Named::ReleaseCapture => 0,
            Named::KeyState => 1,
            Named::CursorPos => 1,
            Named::GetDc => 1,
            Named::Invalidate => 3,
            Named::Validate => 2,
            Named::UpdateRect => 3,
            Named::CreateFont => 1,
            Named::GetObject { .. } => 3,
            Named::SaveDc => 1,
            Named::RestoreDc => 2,
            Named::SetBackground { .. } => 2,
            Named::VirtualProtect => 4,
            Named::VirtualQuery => 3,
            Named::SystemTime => 1,
            Named::DisableThreadCalls => 1,
            Named::LoadLibrary { ex, .. } => if ex {
                3
            } else {
                1
            },
            Named::FindFirst { ex, .. } => if ex {
                6
            } else {
                2
            },
            Named::FindNext => 2,
            Named::FindClose => 1,
            Named::FullPath => 4,
            Named::MoveFile { ex, .. } => if ex {
                3
            } else {
                2
            },
            Named::CopyFile { .. } => 3,
            Named::FileTime => 4,
        }
    }
}

/// The part that a service belongs to.
#[derive(Clone, Copy, Debug, PartialEq, Eq, Structural)]
pub enum Part {
    Thread,
    Sync,
    Registry,
    Window,
    Input,
    System,
}

impl Named {
    /// The part that a service belongs to.
    pub open spec fn part(self) -> Part {
        match self {
            Named::CreateThread { .. }
            | Named::ExitThread { .. }
            | Named::TerminateThread
            | Named::ResumeThread
            | Named::SuspendThread
            | Named::GetExitCodeThread
            | Named::SleepEx
            | Named::SwitchToThread
            | Named::SlotAlloc { .. }
            | Named::SlotFree { .. }
            | Named::SlotGet { .. }
            | Named::SlotSet { .. }
            | Named::RuntimeVar { .. } => Part::Thread,
            Named::CreateSync { .. }
            | Named::OpenSync { .. }
            | Named::Signal { .. }
            | Named::WaitSingle { .. }
            | Named::WaitMultiple { .. } => Part::Sync,
            Named::RegCreate { .. }
            | Named::RegOpen { .. }
            | Named::RegSet { .. }
            | Named::RegQuery { .. }
            | Named::RegClose
            | Named::RegDeleteValue { .. }
            | Named::RegDeleteKey { .. }
            | Named::RegEnumKey { .. }
            | Named::RegEnumValue { .. }
            | Named::RegQueryInfo => Part::Registry,
            Named::PostMessage
            | Named::PostThreadMessage
            | Named::TranslateMessage
            | Named::WindowLong { .. }
            | Named::ClassName { .. }
            | Named::IsWindow
            | Named::WindowRect
            | Named::ShowWindow
            | Named::SetProp { .. }
            | Named::GetProp { .. }
            | Named::RemoveProp { .. }
            | Named::MoveWindow
            | Named::SetWindowPos => Part::Window,
            Named::SetFocus
            | Named::GetFocus
            | Named::SetCapture
            | Named::GetCapture
            | Named::ReleaseCapture
            | Named::KeyState
            | Named::CursorPos
            | Named::GetDc
            | Named::Invalidate
            | Named::Validate
            | Named::UpdateRect
            | Named::CreateFont
            | Named::GetObject { .. }
            | Named::SaveDc
            | Named::RestoreDc
            | Named::SetBackground { .. } => Part::Input,
            Named::VirtualProtect
            | Named::VirtualQuery
            | Named::SystemTime
            | Named::DisableThreadCalls
            | Named::LoadLibrary { .. }
            | Named::FindFirst { .. }
            | Named::FindNext
            | Named::FindClose
            | Named::FullPath
            | Named::MoveFile { .. }
            | Named::CopyFile { .. }
            | Named::FileTime => Part::System,
        }
    }

    /// The part that a service belongs to.
    pub fn find_part(self) -> (r: Part)
        ensures
            r == self.part(),
    {
        match self {
            Named::CreateThread { .. }
            | Named::ExitThread { .. }
            | Named::TerminateThread
            | Named::ResumeThread
            | Named::SuspendThread
            | Named::GetExitCodeThread
            | Named::SleepEx
            | Named::SwitchToThread
            | Named::SlotAlloc { .. }
            | Named::SlotFree { .. }
            | Named::SlotGet { .. }
            | Named::SlotSet { .. }
            | Named::RuntimeVar { .. } => Part::Thread,
            Named::CreateSync { .. }
            | Named::OpenSync { .. }
            | Named::Signal { .. }
            | Named::WaitSingle { .. }
            | Named::WaitMultiple { .. } => Part::Sync,
            Named::RegCreate { .. }
            | Named::RegOpen { .. }
            | Named::RegSet { .. }
            | Named::RegQuery { .. }
            | Named::RegClose
            | Named::RegDeleteValue { .. }
            | Named::RegDeleteKey { .. }
            | Named::RegEnumKey { .. }
            | Named::RegEnumValue { .. }
            | Named::RegQueryInfo => Part::Registry,
            Named::PostMessage
            | Named::PostThreadMessage
            | Named::TranslateMessage
            | Named::WindowLong { .. }
            | Named::ClassName { .. }
            | Named::IsWindow
            | Named::WindowRect
            | Named::ShowWindow
            | Named::SetProp { .. }
            | Named::GetProp { .. }
            | Named::RemoveProp { .. }
            | Named::MoveWindow
            | Named::SetWindowPos => Part::Window,
            Named::SetFocus
            | Named::GetFocus
            | Named::SetCapture
            | Named::GetCapture
            | Named::ReleaseCapture
            | Named::KeyState
            | Named::CursorPos
            | Named::GetDc
            | Named::Invalidate
            | Named::Validate
            | Named::UpdateRect
            | Named::CreateFont
            | Named::GetObject { .. }
            | Named::SaveDc
            | Named::RestoreDc
            | Named::SetBackground { .. } => Part::Input,
            Named::VirtualProtect
            | Named::VirtualQuery
            | Named::SystemTime
            | Named::DisableThreadCalls
            | Named::LoadLibrary { .. }
            | Named::FindFirst { .. }
            | Named::FindNext
            | Named::FindClose
            | Named::FullPath
            | Named::MoveFile { .. }
            | Named::CopyFile { .. }
            | Named::FileTime => Part::System,
        }
    }
}

} // verus!
