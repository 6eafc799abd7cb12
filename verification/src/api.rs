//! The Windows symbols that are served, and the stack each takes with it.

use vstd::prelude::*;

use crate::named::{service_named, Named};
use crate::text::{append_str, chars_of, str_eq, string_of, sub_chars};

verus! {

/// The symbols that are served. Every other import is `Unsupported`.
#[derive(Clone, Debug)]
pub enum Api {
    GetStdHandle,
    WriteFile,
    WriteConsoleA,
    WriteConsoleW,
    ExitProcess,
    TerminateProcess,
    GetCommandLineA,
    GetCommandLineW,
    GetModuleHandleA,
    GetModuleHandleW,
    GetProcessHeap,
    HeapAlloc,
    HeapFree,
    HeapReAlloc,
    VirtualAlloc,
    VirtualFree,
    GetLastError,
    SetLastError,
    GetCurrentProcessId,
    GetCurrentThreadId,
    GetCurrentProcess,
    IsDebuggerPresent,
    Sleep,
    QueryPerformanceCounter,
    QueryPerformanceFrequency,
    GetSystemTimeAsFileTime,
    GetTickCount,
    GetACP,
    SetConsoleCP,
    SetConsoleOutputCP,
    GetConsoleMode,
    SetConsoleMode,
    GetStartupInfoA,
    GetStartupInfoW,
    GetEnvironmentStringsW,
    FreeEnvironmentStringsW,
    LoadLibraryA,
    FreeLibrary,
    GetProcAddress,
    Malloc,
    Calloc,
    Realloc,
    Free,
    /// `memcpy` and `memmove`.
    Memcpy,
    Memset,
    Memcmp,
    Strlen,
    /// The `exit` family of the C runtime.
    CrtExit,
    /// `__getmainargs` and its wide form.
    GetMainArgs,
    /// `_initterm`: run a table of initializers.
    Initterm,
    /// Not an import: goes on with the table of an `_initterm` call.
    InittermDriver,
    /// A start-up or teardown hook of the C runtime that does nothing.
    CrtNoop,
    Fputs,
    Fputc,
    Fwrite,
    Puts,
    CharNextA,
    CharNextW,
    CharPrevW,
    LstrlenA,
    LstrlenW,
    LstrcpyW,
    LstrcpynW,
    LstrcatW,
    LstrcmpW,
    LstrcmpiW,
    /// Returns a handle that is not null. `argc` is what a 32-bit callee pops.
    FakeHandle { sym: String, argc: u32 },
    CreateFileW,
    ReadFileApi,
    CloseHandle,
    CreateDirectoryW,
    GetTempPathW,
    GetTempFileNameW,
    GetFileSizeApi,
    SetFilePointerApi,
    GetFileAttributesW,
    DeleteFileW,
    GetModuleFileNameW,
    GlobalAlloc,
    GlobalLock,
    GlobalFreeUnlock,
    GetVersion,
    GetVersionEx,
    GetSystemDirectoryW,
    GetWindowsDirectoryW,
    /// Not an import: goes on with a queue of guest callbacks.
    CallbackDriver,
    /// Not an import: where the handlers of a raised exception return to.
    ExceptionDriver,
    /// Not an import: what the start routine of a thread returns to.
    ThreadExit,
    /// Not an import: where a thread of an image with TLS callbacks starts.
    ThreadTlsAttach,
    /// Not an import: where the TLS callbacks of a new thread return to.
    ThreadStartEntry,
    /// Not an import: what a library calls its host half through.
    WineUnixCall,
    /// `CreateDialogParam`, or `DialogBoxParam` where `modal`.
    CreateDialogParam { modal: bool },
    SetDlgItemTextW,
    GetDlgItemTextW,
    GetDlgItemApi,
    SendMessageApi,
    SetWindowTextApi,
    GetWindowTextApi,
    GetMessageApi,
    PeekMessageApi,
    IsDialogMessageApi,
    /// Object creation, which always fails: there is no COM.
    CoCreateInstanceApi,
    DestroyWindowApi,
    PostQuitMessageApi,
    EndDialogApi,
    /// `RegisterClass`, or `RegisterClassEx` where `ex`.
    RegisterClassApi { ex: bool },
    CreateWindowExApi,
    DefWindowProcApi,
    DispatchMessageApi,
    BeginPaintApi,
    EndPaintApi,
    GetClientRectApi,
    FillRectApi,
    RectangleApi,
    TextOutApi,
    SetTextColorApi,
    CreateSolidBrushApi,
    CreatePenApi,
    GetStockObjectApi,
    SelectObjectApi,
    MoveToExApi,
    LineToApi,
    SetPixelApi,
    /// A call without effect that returns `r`.
    WinStub { r: u64, argc: u32 },
    /// Not an import: what the entry point returns to.
    ReturnExit,
    /// An import that is not served: it returns 0.
    Unsupported { sym: String, argc: u32 },
    /// A service that is bound by name.
    Bound(Named),
}

/// The one word that Windows calls answer with for success.
pub const TRUE: u64 = 1;

/// What a failed call answers with.
pub const FALSE: u64 = 0;

/// The process, console, memory, time and module services, by name.
pub open spec fn process_api(name: Seq<char>) -> Option<Api> {
    if name == "GetStdHandle"@ {
        Some(Api::GetStdHandle)
    } else if name == "WriteFile"@ {
        Some(Api::WriteFile)
    } else if name == "WriteConsoleA"@ {
        Some(Api::WriteConsoleA)
    } else if name == "WriteConsoleW"@ {
        Some(Api::WriteConsoleW)
    } else if name == "ExitProcess"@ {
        Some(Api::ExitProcess)
    } else if name == "TerminateProcess"@ {
        Some(Api::TerminateProcess)
    } else if name == "GetCommandLineA"@ {
        Some(Api::GetCommandLineA)
    } else if name == "GetCommandLineW"@ {
        Some(Api::GetCommandLineW)
    } else if name == "GetModuleHandleA"@ {
        Some(Api::GetModuleHandleA)
    } else if name == "GetModuleHandleW"@ {
        Some(Api::GetModuleHandleW)
    } else if name == "GetProcessHeap"@ {
        Some(Api::GetProcessHeap)
    } else if name == "HeapAlloc"@ {
        Some(Api::HeapAlloc)
    } else if name == "HeapFree"@ {
        Some(Api::HeapFree)
    } else if name == "HeapReAlloc"@ {
        Some(Api::HeapReAlloc)
    } else if name == "VirtualAlloc"@ {
        Some(Api::VirtualAlloc)
    } else if name == "VirtualFree"@ {
        Some(Api::VirtualFree)
    } else if name == "GetLastError"@ {
        Some(Api::GetLastError)
    } else if name == "SetLastError"@ {
        Some(Api::SetLastError)
    } else if name == "GetCurrentProcessId"@ {
        Some(Api::GetCurrentProcessId)
    } else if name == "GetCurrentThreadId"@ {
        Some(Api::GetCurrentThreadId)
    } else if name == "GetCurrentProcess"@ {
        Some(Api::GetCurrentProcess)
    } else if name == "IsDebuggerPresent"@ {
        Some(Api::IsDebuggerPresent)
    } else if name == "Sleep"@ {
        Some(Api::Sleep)
    } else if name == "QueryPerformanceCounter"@ {
        Some(Api::QueryPerformanceCounter)
    } else if name == "QueryPerformanceFrequency"@ {
        Some(Api::QueryPerformanceFrequency)
    } else if name == "GetSystemTimeAsFileTime"@ {
        Some(Api::GetSystemTimeAsFileTime)
    } else if name == "GetTickCount"@
        || name == "GetTickCount64"@ {
        Some(Api::GetTickCount)
    } else if name == "GetACP"@ {
        Some(Api::GetACP)
    } else if name == "SetConsoleCP"@ {
        Some(Api::SetConsoleCP)
    } else if name == "SetConsoleOutputCP"@ {
        Some(Api::SetConsoleOutputCP)
    } else if name == "GetConsoleMode"@ {
        Some(Api::GetConsoleMode)
    } else if name == "SetConsoleMode"@ {
        Some(Api::SetConsoleMode)
    } else if name == "GetStartupInfoA"@ {
        Some(Api::GetStartupInfoA)
    } else if name == "GetStartupInfoW"@ {
        Some(Api::GetStartupInfoW)
    } else if name == "GetEnvironmentStringsW"@ {
        Some(Api::GetEnvironmentStringsW)
    } else if name == "FreeEnvironmentStringsW"@ {
        Some(Api::FreeEnvironmentStringsW)
    } else if name == "LoadLibraryA"@ {
        Some(Api::LoadLibraryA)
    } else if name == "FreeLibrary"@ {
        Some(Api::FreeLibrary)
    } else if name == "GetProcAddress"@ {
        Some(Api::GetProcAddress)
    } else {
        None
    }
}

/// The process, console, memory, time and module services, by name.
fn find_process(name: &str) -> (r: Option<Api>)
    ensures
        r == process_api(name@),
{
    if str_eq(name, "GetStdHandle") {
        Some(Api::GetStdHandle)
    } else if str_eq(name, "WriteFile") {
        Some(Api::WriteFile)
    } else if str_eq(name, "WriteConsoleA") {
        Some(Api::WriteConsoleA)
    } else if str_eq(name, "WriteConsoleW") {
        Some(Api::WriteConsoleW)
    } else if str_eq(name, "ExitProcess") {
        Some(Api::ExitProcess)
    } else if str_eq(name, "TerminateProcess") {
        Some(Api::TerminateProcess)
    } else if str_eq(name, "GetCommandLineA") {
        Some(Api::GetCommandLineA)
    } else if str_eq(name, "GetCommandLineW") {
        Some(Api::GetCommandLineW)
    } else if str_eq(name, "GetModuleHandleA") {
        Some(Api::GetModuleHandleA)
    } else if str_eq(name, "GetModuleHandleW") {
        Some(Api::GetModuleHandleW)
    } else if str_eq(name, "GetProcessHeap") {
        Some(Api::GetProcessHeap)
    } else if str_eq(name, "HeapAlloc") {
        Some(Api::HeapAlloc)
    } else if str_eq(name, "HeapFree") {
        Some(Api::HeapFree)
    } else if str_eq(name, "HeapReAlloc") {
        Some(Api::HeapReAlloc)
    } else if str_eq(name, "VirtualAlloc") {
        Some(Api::VirtualAlloc)
    } else if str_eq(name, "VirtualFree") {
        Some(Api::VirtualFree)
    } else if str_eq(name, "GetLastError") {
        Some(Api::GetLastError)
    } else if str_eq(name, "SetLastError") {
        Some(Api::SetLastError)
    } else if str_eq(name, "GetCurrentProcessId") {
        Some(Api::GetCurrentProcessId)
    } else if str_eq(name, "GetCurrentThreadId") {
        Some(Api::GetCurrentThreadId)
    } else if str_eq(name, "GetCurrentProcess") {
        Some(Api::GetCurrentProcess)
    } else if str_eq(name, "IsDebuggerPresent") {
        Some(Api::IsDebuggerPresent)
    } else if str_eq(name, "Sleep") {
        Some(Api::Sleep)
    } else if str_eq(name, "QueryPerformanceCounter") {
        Some(Api::QueryPerformanceCounter)
    } else if str_eq(name, "QueryPerformanceFrequency") {
        Some(Api::QueryPerformanceFrequency)
    } else if str_eq(name, "GetSystemTimeAsFileTime") {
        Some(Api::GetSystemTimeAsFileTime)
    } else if str_eq(name, "GetTickCount")
        || str_eq(name, "GetTickCount64") {
        Some(Api::GetTickCount)
    } else if str_eq(name, "GetACP") {
        Some(Api::GetACP)
    } else if str_eq(name, "SetConsoleCP") {
        Some(Api::SetConsoleCP)
    } else if str_eq(name, "SetConsoleOutputCP") {
        Some(Api::SetConsoleOutputCP)
    } else if str_eq(name, "GetConsoleMode") {
        Some(Api::GetConsoleMode)
    } else if str_eq(name, "SetConsoleMode") {
        Some(Api::SetConsoleMode)
    } else if str_eq(name, "GetStartupInfoA") {
        Some(Api::GetStartupInfoA)
    } else if str_eq(name, "GetStartupInfoW") {
        Some(Api::GetStartupInfoW)
    } else if str_eq(name, "GetEnvironmentStringsW") {
        Some(Api::GetEnvironmentStringsW)
    } else if str_eq(name, "FreeEnvironmentStringsW") {
        Some(Api::FreeEnvironmentStringsW)
    } else if str_eq(name, "LoadLibraryA") {
        Some(Api::LoadLibraryA)
    } else if str_eq(name, "FreeLibrary") {
        Some(Api::FreeLibrary)
    } else if str_eq(name, "GetProcAddress") {
        Some(Api::GetProcAddress)
    } else {
        None
    }
}

/// The C runtime services, by name.
pub open spec fn runtime_api(name: Seq<char>) -> Option<Api> {
    if name == "malloc"@ {
        Some(Api::Malloc)
    } else if name == "calloc"@ {
        Some(Api::Calloc)
    } else if name == "realloc"@ {
        Some(Api::Realloc)
    } else if name == "free"@ {
        Some(Api::Free)
    } else if name == "memcpy"@
        || name == "memmove"@ {
        Some(Api::Memcpy)
    } else if name == "memset"@ {
        Some(Api::Memset)
    } else if name == "memcmp"@ {
        Some(Api::Memcmp)
    } else if name == "strlen"@ {
        Some(Api::Strlen)
    } else if name == "exit"@
        || name == "_exit"@
        || name == "_cexit"@
        || name == "_c_exit"@ {
        Some(Api::CrtExit)
    } else if name == "__getmainargs"@
        || name == "__wgetmainargs"@ {
        Some(Api::GetMainArgs)
    } else if name == "_initterm"@
        || name == "_initterm_e"@ {
        Some(Api::Initterm)
    } else if name == "fputs"@ {
        Some(Api::Fputs)
    } else if name == "fputc"@
        || name == "putc"@
        || name == "putchar"@ {
        Some(Api::Fputc)
    } else if name == "fwrite"@ {
        Some(Api::Fwrite)
    } else if name == "puts"@ {
        Some(Api::Puts)
    } else {
        None
    }
}

/// The C runtime services, by name.
fn find_runtime(name: &str) -> (r: Option<Api>)
    ensures
        r == runtime_api(name@),
{
    if str_eq(name, "malloc") {
        Some(Api::Malloc)
    } else if str_eq(name, "calloc") {
        Some(Api::Calloc)
    } else if str_eq(name, "realloc") {
        Some(Api::Realloc)
    } else if str_eq(name, "free") {
        Some(Api::Free)
    } else if str_eq(name, "memcpy")
        || str_eq(name, "memmove") {
        Some(Api::Memcpy)
    } else if str_eq(name, "memset") {
        Some(Api::Memset)
    } else if str_eq(name, "memcmp") {
        Some(Api::Memcmp)
    } else if str_eq(name, "strlen") {
        Some(Api::Strlen)
    } else if str_eq(name, "exit")
        || str_eq(name, "_exit")
        || str_eq(name, "_cexit")
        || str_eq(name, "_c_exit") {
        Some(Api::CrtExit)
    } else if str_eq(name, "__getmainargs")
        || str_eq(name, "__wgetmainargs") {
        Some(Api::GetMainArgs)
    } else if str_eq(name, "_initterm")
        || str_eq(name, "_initterm_e") {
        Some(Api::Initterm)
    } else if str_eq(name, "fputs") {
        Some(Api::Fputs)
    } else if str_eq(name, "fputc")
        || str_eq(name, "putc")
        || str_eq(name, "putchar") {
        Some(Api::Fputc)
    } else if str_eq(name, "fwrite") {
        Some(Api::Fwrite)
    } else if str_eq(name, "puts") {
        Some(Api::Puts)
    } else {
        None
    }
}

/// The string helpers, by name.
pub open spec fn strings_api(name: Seq<char>) -> Option<Api> {
    if name == "CharNextA"@ {
        Some(Api::CharNextA)
    } else if name == "CharNextW"@ {
        Some(Api::CharNextW)
    } else if name == "CharPrevW"@ {
        Some(Api::CharPrevW)
    } else if name == "lstrlenA"@ {
        Some(Api::LstrlenA)
    } else if name == "lstrlenW"@ {
        Some(Api::LstrlenW)
    } else if name == "lstrcpyW"@
        || name == "lstrcpyA"@ {
        Some(Api::LstrcpyW)
    } else if name == "lstrcpynW"@
        || name == "lstrcpynA"@ {
        Some(Api::LstrcpynW)
    } else if name == "lstrcatW"@
        || name == "lstrcatA"@ {
        Some(Api::LstrcatW)
    } else if name == "lstrcmpW"@
        || name == "lstrcmpA"@ {
        Some(Api::LstrcmpW)
    } else if name == "lstrcmpiW"@
        || name == "lstrcmpiA"@ {
        Some(Api::LstrcmpiW)
    } else {
        None
    }
}

/// The string helpers, by name.
fn find_strings(name: &str) -> (r: Option<Api>)
    ensures
        r == strings_api(name@),
{
    if str_eq(name, "CharNextA") {
        Some(Api::CharNextA)
    } else if str_eq(name, "CharNextW") {
        Some(Api::CharNextW)
    } else if str_eq(name, "CharPrevW") {
        Some(Api::CharPrevW)
    } else if str_eq(name, "lstrlenA") {
        Some(Api::LstrlenA)
    } else if str_eq(name, "lstrlenW") {
        Some(Api::LstrlenW)
    } else if str_eq(name, "lstrcpyW")
        || str_eq(name, "lstrcpyA") {
        Some(Api::LstrcpyW)
    } else if str_eq(name, "lstrcpynW")
        || str_eq(name, "lstrcpynA") {
        Some(Api::LstrcpynW)
    } else if str_eq(name, "lstrcatW")
        || str_eq(name, "lstrcatA") {
        Some(Api::LstrcatW)
    } else if str_eq(name, "lstrcmpW")
        || str_eq(name, "lstrcmpA") {
        Some(Api::LstrcmpW)
    } else if str_eq(name, "lstrcmpiW")
        || str_eq(name, "lstrcmpiA") {
        Some(Api::LstrcmpiW)
    } else {
        None
    }
}

/// The file and system services, by name.
pub open spec fn files_api(name: Seq<char>) -> Option<Api> {
    if name == "CreateFileW"@ {
        Some(Api::CreateFileW)
    } else if name == "ReadFile"@ {
        Some(Api::ReadFileApi)
    } else if name == "CloseHandle"@ {
        Some(Api::CloseHandle)
    } else if name == "CreateDirectoryW"@ {
        Some(Api::CreateDirectoryW)
    } else if name == "GetTempPathW"@ {
        Some(Api::GetTempPathW)
    } else if name == "GetTempFileNameW"@ {
        Some(Api::GetTempFileNameW)
    } else if name == "GetFileSize"@ {
        Some(Api::GetFileSizeApi)
    } else if name == "SetFilePointer"@ {
        Some(Api::SetFilePointerApi)
    } else if name == "GetFileAttributesW"@ {
        Some(Api::GetFileAttributesW)
    } else if name == "DeleteFileW"@ {
        Some(Api::DeleteFileW)
    } else if name == "GetModuleFileNameW"@
        || name == "GetModuleFileNameA"@ {
        Some(Api::GetModuleFileNameW)
    } else if name == "GetVersion"@ {
        Some(Api::GetVersion)
    } else if name == "GetVersionExW"@
        || name == "GetVersionExA"@ {
        Some(Api::GetVersionEx)
    } else if name == "GetSystemDirectoryW"@ {
        Some(Api::GetSystemDirectoryW)
    } else if name == "GetWindowsDirectoryW"@
        || name == "GetSystemWindowsDirectoryW"@ {
        Some(Api::GetWindowsDirectoryW)
    } else {
        None
    }
}

/// The file and system services, by name.
fn find_files(name: &str) -> (r: Option<Api>)
    ensures
        r == files_api(name@),
{
    if str_eq(name, "CreateFileW") {
        Some(Api::CreateFileW)
    } else if str_eq(name, "ReadFile") {
        Some(Api::ReadFileApi)
    } else if str_eq(name, "CloseHandle") {
        Some(Api::CloseHandle)
    } else if str_eq(name, "CreateDirectoryW") {
        Some(Api::CreateDirectoryW)
    } else if str_eq(name, "GetTempPathW") {
        Some(Api::GetTempPathW)
    } else if str_eq(name, "GetTempFileNameW") {
        Some(Api::GetTempFileNameW)
    } else if str_eq(name, "GetFileSize") {
        Some(Api::GetFileSizeApi)
    } else if str_eq(name, "SetFilePointer") {
        Some(Api::SetFilePointerApi)
    } else if str_eq(name, "GetFileAttributesW") {
        Some(Api::GetFileAttributesW)
    } else if str_eq(name, "DeleteFileW") {
        Some(Api::DeleteFileW)
    } else if str_eq(name, "GetModuleFileNameW")
        || str_eq(name, "GetModuleFileNameA") {
        Some(Api::GetModuleFileNameW)
    } else if str_eq(name, "GetVersion") {
        Some(Api::GetVersion)
    } else if str_eq(name, "GetVersionExW")
        || str_eq(name, "GetVersionExA") {
        Some(Api::GetVersionEx)
    } else if str_eq(name, "GetSystemDirectoryW") {
        Some(Api::GetSystemDirectoryW)
    } else if str_eq(name, "GetWindowsDirectoryW")
        || str_eq(name, "GetSystemWindowsDirectoryW") {
        Some(Api::GetWindowsDirectoryW)
    } else {
        None
    }
}

/// The dialog, message and window-text services, by name.
pub open spec fn dialogs_api(name: Seq<char>) -> Option<Api> {
    if name == "CreateDialogParamW"@ {
        Some(Api::CreateDialogParam { modal: false })
    } else if name == "DialogBoxParamW"@ {
        Some(Api::CreateDialogParam { modal: true })
    } else if name == "SetDlgItemTextW"@ {
        Some(Api::SetDlgItemTextW)
    } else if name == "GetDlgItemTextW"@ {
        Some(Api::GetDlgItemTextW)
    } else if name == "GetDlgItem"@ {
        Some(Api::GetDlgItemApi)
    } else if name == "SendMessageW"@ {
        Some(Api::SendMessageApi)
    } else if name == "SetWindowTextW"@ {
        Some(Api::SetWindowTextApi)
    } else if name == "GetWindowTextW"@ {
        Some(Api::GetWindowTextApi)
    } else if name == "GetMessageW"@ {
        Some(Api::GetMessageApi)
    } else if name == "PeekMessageW"@ {
        Some(Api::PeekMessageApi)
    } else if name == "IsDialogMessageW"@
        || name == "IsDialogMessage"@ {
        Some(Api::IsDialogMessageApi)
    } else if name == "CoCreateInstance"@
        || name == "CoGetClassObject"@ {
        Some(Api::CoCreateInstanceApi)
    } else if name == "DestroyWindow"@ {
        Some(Api::DestroyWindowApi)
    } else if name == "PostQuitMessage"@ {
        Some(Api::PostQuitMessageApi)
    } else if name == "EndDialog"@ {
        Some(Api::EndDialogApi)
    } else if name == "GlobalAlloc"@
        || name == "LocalAlloc"@ {
        Some(Api::GlobalAlloc)
    } else if name == "GlobalLock"@
        || name == "LocalLock"@
        || name == "GlobalHandle"@ {
        Some(Api::GlobalLock)
    } else if name == "GlobalFree"@
        || name == "GlobalUnlock"@
        || name == "LocalFree"@
        || name == "LocalUnlock"@ {
        Some(Api::GlobalFreeUnlock)
    } else if name == "__set_app_type"@
        || name == "_set_fmode"@
        || name == "_get_fmode"@
        || name == "__setusermatherr"@
        || name == "_configthreadlocale"@
        || name == "_controlfp"@
        || name == "_controlfp_s"@
        || name == "__C_specific_handler"@
        || name == "_XcptFilter"@
        || name == "_amsg_exit"@
        || name == "signal"@
        || name == "_lock"@
        || name == "_unlock"@
        || name == "_onexit"@
        || name == "atexit"@
        || name == "__dllonexit"@
        || name == "_setmode"@
        || name == "setlocale"@
        || name == "_set_new_mode"@
        || name == "_configure_narrow_argv"@
        || name == "_initialize_narrow_environment"@
        || name == "_get_initial_narrow_environment"@
        || name == "_set_app_type"@ {
        Some(Api::CrtNoop)
    } else {
        None
    }
}

/// The dialog, message and window-text services, by name.
fn find_dialogs(name: &str) -> (r: Option<Api>)
    ensures
        r == dialogs_api(name@),
{
    if str_eq(name, "CreateDialogParamW") {
        Some(Api::CreateDialogParam { modal: false })
    } else if str_eq(name, "DialogBoxParamW") {
        Some(Api::CreateDialogParam { modal: true })
    } else if str_eq(name, "SetDlgItemTextW") {
        Some(Api::SetDlgItemTextW)
    } else if str_eq(name, "GetDlgItemTextW") {
        Some(Api::GetDlgItemTextW)
    } else if str_eq(name, "GetDlgItem") {
        Some(Api::GetDlgItemApi)
    } else if str_eq(name, "SendMessageW") {
        Some(Api::SendMessageApi)
    } else if str_eq(name, "SetWindowTextW") {
        Some(Api::SetWindowTextApi)
    } else if str_eq(name, "GetWindowTextW") {
        Some(Api::GetWindowTextApi)
    } else if str_eq(name, "GetMessageW") {
        Some(Api::GetMessageApi)
    } else if str_eq(name, "PeekMessageW") {
        Some(Api::PeekMessageApi)
    } else if str_eq(name, "IsDialogMessageW")
        || str_eq(name, "IsDialogMessage") {
        Some(Api::IsDialogMessageApi)
    } else if str_eq(name, "CoCreateInstance")
        || str_eq(name, "CoGetClassObject") {
        Some(Api::CoCreateInstanceApi)
    } else if str_eq(name, "DestroyWindow") {
        Some(Api::DestroyWindowApi)
    } else if str_eq(name, "PostQuitMessage") {
        Some(Api::PostQuitMessageApi)
    } else if str_eq(name, "EndDialog") {
        Some(Api::EndDialogApi)
    } else if str_eq(name, "GlobalAlloc")
        || str_eq(name, "LocalAlloc") {
        Some(Api::GlobalAlloc)
    } else if str_eq(name, "GlobalLock")
        || str_eq(name, "LocalLock")
        || str_eq(name, "GlobalHandle") {
        Some(Api::GlobalLock)
    } else if str_eq(name, "GlobalFree")
        || str_eq(name, "GlobalUnlock")
        || str_eq(name, "LocalFree")
        || str_eq(name, "LocalUnlock") {
        Some(Api::GlobalFreeUnlock)
    } else if str_eq(name, "__set_app_type")
        || str_eq(name, "_set_fmode")
        || str_eq(name, "_get_fmode")
        || str_eq(name, "__setusermatherr")
        || str_eq(name, "_configthreadlocale")
        || str_eq(name, "_controlfp")
        || str_eq(name, "_controlfp_s")
        || str_eq(name, "__C_specific_handler")
        || str_eq(name, "_XcptFilter")
        || str_eq(name, "_amsg_exit")
        || str_eq(name, "signal")
        || str_eq(name, "_lock")
        || str_eq(name, "_unlock")
        || str_eq(name, "_onexit")
        || str_eq(name, "atexit")
        || str_eq(name, "__dllonexit")
        || str_eq(name, "_setmode")
        || str_eq(name, "setlocale")
        || str_eq(name, "_set_new_mode")
        || str_eq(name, "_configure_narrow_argv")
        || str_eq(name, "_initialize_narrow_environment")
        || str_eq(name, "_get_initial_narrow_environment")
        || str_eq(name, "_set_app_type") {
        Some(Api::CrtNoop)
    } else {
        None
    }
}

/// The window and drawing services, by name.
pub open spec fn windows_api(name: Seq<char>) -> Option<Api> {
    if name == "RegisterClassW"@
        || name == "RegisterClassA"@ {
        Some(Api::RegisterClassApi { ex: false })
    } else if name == "RegisterClassExW"@
        || name == "RegisterClassExA"@ {
        Some(Api::RegisterClassApi { ex: true })
    } else if name == "CreateWindowExW"@
        || name == "CreateWindowExA"@ {
        Some(Api::CreateWindowExApi)
    } else if name == "DefWindowProcW"@
        || name == "DefWindowProcA"@ {
        Some(Api::DefWindowProcApi)
    } else if name == "DispatchMessageW"@
        || name == "DispatchMessageA"@ {
        Some(Api::DispatchMessageApi)
    } else if name == "BeginPaint"@ {
        Some(Api::BeginPaintApi)
    } else if name == "EndPaint"@ {
        Some(Api::EndPaintApi)
    } else if name == "GetClientRect"@ {
        Some(Api::GetClientRectApi)
    } else if name == "FillRect"@ {
        Some(Api::FillRectApi)
    } else if name == "Rectangle"@ {
        Some(Api::RectangleApi)
    } else if name == "TextOutW"@
        || name == "TextOutA"@ {
        Some(Api::TextOutApi)
    } else if name == "SetTextColor"@ {
        Some(Api::SetTextColorApi)
    } else if name == "CreateSolidBrush"@ {
        Some(Api::CreateSolidBrushApi)
    } else if name == "CreatePen"@ {
        Some(Api::CreatePenApi)
    } else if name == "GetStockObject"@ {
        Some(Api::GetStockObjectApi)
    } else if name == "SelectObject"@ {
        Some(Api::SelectObjectApi)
    } else if name == "MoveToEx"@ {
        Some(Api::MoveToExApi)
    } else if name == "LineTo"@ {
        Some(Api::LineToApi)
    } else if name == "SetPixel"@
        || name == "SetPixelV"@ {
        Some(Api::SetPixelApi)
    } else {
        None
    }
}

/// The window and drawing services, by name.
fn find_windows(name: &str) -> (r: Option<Api>)
    ensures
        r == windows_api(name@),
{
    if str_eq(name, "RegisterClassW")
        || str_eq(name, "RegisterClassA") {
        Some(Api::RegisterClassApi { ex: false })
    } else if str_eq(name, "RegisterClassExW")
        || str_eq(name, "RegisterClassExA") {
        Some(Api::RegisterClassApi { ex: true })
    } else if str_eq(name, "CreateWindowExW")
        || str_eq(name, "CreateWindowExA") {
        Some(Api::CreateWindowExApi)
    } else if str_eq(name, "DefWindowProcW")
        || str_eq(name, "DefWindowProcA") {
        Some(Api::DefWindowProcApi)
    } else if str_eq(name, "DispatchMessageW")
        || str_eq(name, "DispatchMessageA") {
        Some(Api::DispatchMessageApi)
    } else if str_eq(name, "BeginPaint") {
        Some(Api::BeginPaintApi)
    } else if str_eq(name, "EndPaint") {
        Some(Api::EndPaintApi)
    } else if str_eq(name, "GetClientRect") {
        Some(Api::GetClientRectApi)
    } else if str_eq(name, "FillRect") {
        Some(Api::FillRectApi)
    } else if str_eq(name, "Rectangle") {
        Some(Api::RectangleApi)
    } else if str_eq(name, "TextOutW")
        || str_eq(name, "TextOutA") {
        Some(Api::TextOutApi)
    } else if str_eq(name, "SetTextColor") {
        Some(Api::SetTextColorApi)
    } else if str_eq(name, "CreateSolidBrush") {
        Some(Api::CreateSolidBrushApi)
    } else if str_eq(name, "CreatePen") {
        Some(Api::CreatePenApi)
    } else if str_eq(name, "GetStockObject") {
        Some(Api::GetStockObjectApi)
    } else if str_eq(name, "SelectObject") {
        Some(Api::SelectObjectApi)
    } else if str_eq(name, "MoveToEx") {
        Some(Api::MoveToExApi)
    } else if str_eq(name, "LineTo") {
        Some(Api::LineToApi)
    } else if str_eq(name, "SetPixel")
        || str_eq(name, "SetPixelV") {
        Some(Api::SetPixelApi)
    } else {
        None
    }
}

/// The calls that answer with a handle that stands for nothing.
pub open spec fn is_fake_handle(name: Seq<char>) -> bool {
    ||| name == "SetConsoleCtrlHandler"@
    ||| name == "SetConsoleTitleW"@
    ||| name == "FlushConsoleInputBuffer"@
    ||| name == "SetHandleCount"@
    ||| name == "SetThreadPriority"@
    ||| name == "LoadCursorW"@
    ||| name == "LoadIconW"@
    ||| name == "LoadImageW"@
    ||| name == "LoadBitmapW"@
    ||| name == "GetSystemMenu"@
    ||| name == "CreatePopupMenu"@
    ||| name == "CreateBrushIndirect"@
    ||| name == "FindWindowExW"@
    ||| name == "SetTimer"@
    ||| name == "GetModuleHandleExW"@
}

/// The calls that answer with a handle that stands for nothing.
fn takes_fake_handle(name: &str) -> (r: bool)
    ensures
        r == is_fake_handle(name@),
{
    str_eq(name, "SetConsoleCtrlHandler")
        || str_eq(name, "SetConsoleTitleW")
        || str_eq(name, "FlushConsoleInputBuffer")
        || str_eq(name, "SetHandleCount")
        || str_eq(name, "SetThreadPriority")
        || str_eq(name, "LoadCursorW")
        || str_eq(name, "LoadIconW")
        || str_eq(name, "LoadImageW")
        || str_eq(name, "LoadBitmapW")
        || str_eq(name, "GetSystemMenu")
        || str_eq(name, "CreatePopupMenu")
        || str_eq(name, "CreateBrushIndirect")
        || str_eq(name, "FindWindowExW")
        || str_eq(name, "SetTimer")
        || str_eq(name, "GetModuleHandleExW")
}

/// The window calls that succeed without effect.
pub open spec fn is_plain_stub(name: Seq<char>) -> bool {
    ||| name == "UpdateWindow"@
    ||| name == "DeleteObject"@
    ||| name == "ReleaseDC"@
}

/// The window calls that succeed without effect.
fn takes_plain_stub(name: &str) -> (r: bool)
    ensures
        r == is_plain_stub(name@),
{
    str_eq(name, "UpdateWindow")
        || str_eq(name, "DeleteObject")
        || str_eq(name, "ReleaseDC")
}

/// The symbols without a service whose calls pop 0 stack arguments.
pub open spec fn takes_0(name: Seq<char>) -> bool {
    ||| name == "CloseClipboard"@
    ||| name == "CreatePopupMenu"@
    ||| name == "EmptyClipboard"@
    ||| name == "GetMessagePos"@
    ||| name == "OleUninitialize"@
    ||| name == "wsprintfW"@
    ||| name == "wsprintfA"@
}

/// The symbols without a service whose calls pop 0 stack arguments.
fn pops_0(name: &str) -> (r: bool)
    ensures
        r == takes_0(name@),
{
    str_eq(name, "CloseClipboard")
        || str_eq(name, "CreatePopupMenu")
        || str_eq(name, "EmptyClipboard")
        || str_eq(name, "GetMessagePos")
        || str_eq(name, "OleUninitialize")
        || str_eq(name, "wsprintfW")
        || str_eq(name, "wsprintfA")
}

/// The calls that pop 1 stack argument.
pub open spec fn takes_1(name: Seq<char>) -> bool {
    ||| name == "SetConsoleTitleW"@
    ||| name == "FlushConsoleInputBuffer"@
    ||| name == "SetHandleCount"@
    ||| name == "InitializeCriticalSection"@
    ||| name == "DeleteCriticalSection"@
    ||| name == "EnterCriticalSection"@
    ||| name == "LeaveCriticalSection"@
    ||| name == "RemoveDirectoryW"@
    ||| name == "SetCurrentDirectoryW"@
    ||| name == "SetErrorMode"@
    ||| name == "IsWindowEnabled"@
    ||| name == "IsWindowVisible"@
    ||| name == "OpenClipboard"@
    ||| name == "SetCursor"@
    ||| name == "SetForegroundWindow"@
    ||| name == "GetSysColor"@
    ||| name == "GetSystemMetrics"@
    ||| name == "MessageBoxIndirectW"@
    ||| name == "DeleteObject"@
    ||| name == "CreateBrushIndirect"@
    ||| name == "SHBrowseForFolderW"@
    ||| name == "SHFileOperationW"@
    ||| name == "OleInitialize"@
    ||| name == "CoTaskMemFree"@
    ||| name == "ImageList_Destroy"@
    ||| name == "UpdateWindow"@
}

/// The calls that pop 1 stack argument.
fn pops_1(name: &str) -> (r: bool)
    ensures
        r == takes_1(name@),
{
    str_eq(name, "SetConsoleTitleW")
        || str_eq(name, "FlushConsoleInputBuffer")
        || str_eq(name, "SetHandleCount")
        || str_eq(name, "InitializeCriticalSection")
        || str_eq(name, "DeleteCriticalSection")
        || str_eq(name, "EnterCriticalSection")
        || str_eq(name, "LeaveCriticalSection")
        || str_eq(name, "RemoveDirectoryW")
        || str_eq(name, "SetCurrentDirectoryW")
        || str_eq(name, "SetErrorMode")
        || str_eq(name, "IsWindowEnabled")
        || str_eq(name, "IsWindowVisible")
        || str_eq(name, "OpenClipboard")
        || str_eq(name, "SetCursor")
        || str_eq(name, "SetForegroundWindow")
        || str_eq(name, "GetSysColor")
        || str_eq(name, "GetSystemMetrics")
        || str_eq(name, "MessageBoxIndirectW")
        || str_eq(name, "DeleteObject")
        || str_eq(name, "CreateBrushIndirect")
        || str_eq(name, "SHBrowseForFolderW")
        || str_eq(name, "SHFileOperationW")
        || str_eq(name, "OleInitialize")
        || str_eq(name, "CoTaskMemFree")
        || str_eq(name, "ImageList_Destroy")
        || str_eq(name, "UpdateWindow")
}

/// The symbols without a service whose calls pop 2 stack arguments.
pub open spec fn takes_2(name: Seq<char>) -> bool {
    ||| name == "SetConsoleCtrlHandler"@
    ||| name == "SetThreadPriority"@
    ||| name == "CompareFileTime"@
    ||| name == "SetEnvironmentVariableW"@
    ||| name == "SetFileAttributesW"@
    ||| name == "GetExitCodeProcess"@
    ||| name == "EnableWindow"@
    ||| name == "ExitWindowsEx"@
    ||| name == "GetSystemMenu"@
    ||| name == "LoadBitmapW"@
    ||| name == "LoadCursorW"@
    ||| name == "ReleaseDC"@
    ||| name == "ScreenToClient"@
    ||| name == "SetClipboardData"@
    ||| name == "GetDeviceCaps"@
    ||| name == "SHGetPathFromIDListW"@
    ||| name == "LoadIconW"@
}

/// The symbols without a service whose calls pop 2 stack arguments.
fn pops_2(name: &str) -> (r: bool)
    ensures
        r == takes_2(name@),
{
    str_eq(name, "SetConsoleCtrlHandler")
        || str_eq(name, "SetThreadPriority")
        || str_eq(name, "CompareFileTime")
        || str_eq(name, "SetEnvironmentVariableW")
        || str_eq(name, "SetFileAttributesW")
        || str_eq(name, "GetExitCodeProcess")
        || str_eq(name, "EnableWindow")
        || str_eq(name, "ExitWindowsEx")
        || str_eq(name, "GetSystemMenu")
        || str_eq(name, "LoadBitmapW")
        || str_eq(name, "LoadCursorW")
        || str_eq(name, "ReleaseDC")
        || str_eq(name, "ScreenToClient")
        || str_eq(name, "SetClipboardData")
        || str_eq(name, "GetDeviceCaps")
        || str_eq(name, "SHGetPathFromIDListW")
        || str_eq(name, "LoadIconW")
}

/// The symbols without a service whose calls pop 3 stack arguments.
pub open spec fn takes_3(name: Seq<char>) -> bool {
    ||| name == "ExpandEnvironmentStringsW"@
    ||| name == "SetFileSecurityW"@
    ||| name == "GetShortPathNameW"@
    ||| name == "CheckDlgButton"@
    ||| name == "EnableMenuItem"@
    ||| name == "SetClassLongW"@
    ||| name == "GetClassInfoW"@
    ||| name == "OpenProcessToken"@
    ||| name == "LookupPrivilegeValueW"@
    ||| name == "SHGetSpecialFolderLocation"@
    ||| name == "ImageList_AddMasked"@
    ||| name == "MulDiv"@
    ||| name == "GetModuleHandleExW"@
}

/// The symbols without a service whose calls pop 3 stack arguments.
fn pops_3(name: &str) -> (r: bool)
    ensures
        r == takes_3(name@),
{
    str_eq(name, "ExpandEnvironmentStringsW")
        || str_eq(name, "SetFileSecurityW")
        || str_eq(name, "GetShortPathNameW")
        || str_eq(name, "CheckDlgButton")
        || str_eq(name, "EnableMenuItem")
        || str_eq(name, "SetClassLongW")
        || str_eq(name, "GetClassInfoW")
        || str_eq(name, "OpenProcessToken")
        || str_eq(name, "LookupPrivilegeValueW")
        || str_eq(name, "SHGetSpecialFolderLocation")
        || str_eq(name, "ImageList_AddMasked")
        || str_eq(name, "MulDiv")
        || str_eq(name, "GetModuleHandleExW")
}

/// The symbols without a service whose calls pop 4 stack arguments.
pub open spec fn takes_4(name: Seq<char>) -> bool {
    ||| name == "WritePrivateProfileStringW"@
    ||| name == "AppendMenuW"@
    ||| name == "FindWindowExW"@
    ||| name == "MessageBoxW"@
    ||| name == "SetTimer"@
    ||| name == "SystemParametersInfoW"@
    ||| name == "RegEnumKeyW"@
}

/// The symbols without a service whose calls pop 4 stack arguments.
fn pops_4(name: &str) -> (r: bool)
    ensures
        r == takes_4(name@),
{
    str_eq(name, "WritePrivateProfileStringW")
        || str_eq(name, "AppendMenuW")
        || str_eq(name, "FindWindowExW")
        || str_eq(name, "MessageBoxW")
        || str_eq(name, "SetTimer")
        || str_eq(name, "SystemParametersInfoW")
        || str_eq(name, "RegEnumKeyW")
}

/// The symbols without a service whose calls pop 5 stack arguments.
pub open spec fn takes_5(name: Seq<char>) -> bool {
    ||| name == "GetDiskFreeSpaceW"@
    ||| name == "CallWindowProcW"@
    ||| name == "SHGetFileInfoW"@
    ||| name == "ImageList_Create"@
    ||| name == "DrawTextW"@
}

/// The symbols without a service whose calls pop 5 stack arguments.
fn pops_5(name: &str) -> (r: bool)
    ensures
        r == takes_5(name@),
{
    str_eq(name, "GetDiskFreeSpaceW")
        || str_eq(name, "CallWindowProcW")
        || str_eq(name, "SHGetFileInfoW")
        || str_eq(name, "ImageList_Create")
        || str_eq(name, "DrawTextW")
}

/// The symbols without a service whose calls pop 6 stack arguments.
pub open spec fn takes_6(name: Seq<char>) -> bool {
    ||| name == "GetPrivateProfileStringW"@
    ||| name == "SearchPathW"@
    ||| name == "MultiByteToWideChar"@
    ||| name == "LoadImageW"@
    ||| name == "AdjustTokenPrivileges"@
    ||| name == "ShellExecuteW"@
}

/// The symbols without a service whose calls pop 6 stack arguments.
fn pops_6(name: &str) -> (r: bool)
    ensures
        r == takes_6(name@),
{
    str_eq(name, "GetPrivateProfileStringW")
        || str_eq(name, "SearchPathW")
        || str_eq(name, "MultiByteToWideChar")
        || str_eq(name, "LoadImageW")
        || str_eq(name, "AdjustTokenPrivileges")
        || str_eq(name, "ShellExecuteW")
}

/// The symbols without a service whose calls pop 7 stack arguments.
pub open spec fn takes_7(name: Seq<char>) -> bool {
    ||| name == "SendMessageTimeoutW"@
    ||| name == "TrackPopupMenu"@
}

/// The symbols without a service whose calls pop 7 stack arguments.
fn pops_7(name: &str) -> (r: bool)
    ensures
        r == takes_7(name@),
{
    str_eq(name, "SendMessageTimeoutW")
        || str_eq(name, "TrackPopupMenu")
}

/// The symbols without a service whose calls pop 8 stack arguments.
pub open spec fn takes_8(name: Seq<char>) -> bool {
    ||| name == "WideCharToMultiByte"@
}

/// The symbols without a service whose calls pop 8 stack arguments.
fn pops_8(name: &str) -> (r: bool)
    ensures
        r == takes_8(name@),
{
    str_eq(name, "WideCharToMultiByte")
}

/// The service that a symbol is bound to.
pub open spec fn served_by(name: Seq<char>) -> Option<Api> {
    match plain_api(name) {
        Some(a) => Some(a),
        None => match service_named(name) {
            Some(n) => Some(Api::Bound(n)),
            None => None,
        },
    }
}

/// The service that a symbol is bound to.
fn find_served(name: &str) -> (r: Option<Api>)
    ensures
        r == served_by(name@),
{
    let r = find_process(name);
    if r.is_some() {
        return r;
    }
    let r = find_runtime(name);
    if r.is_some() {
        return r;
    }
    let r = find_strings(name);
    if r.is_some() {
        return r;
    }
    let r = find_files(name);
    if r.is_some() {
        return r;
    }
    let r = find_dialogs(name);
    if r.is_some() {
        return r;
    }
    let r = find_windows(name);
    if r.is_some() {
        return r;
    }
    match Named::of(name) {
        Some(n) => Some(Api::Bound(n)),
        None => None,
    }
}

/// The symbols with a service whose calls pop their arguments, as far as they are
/// counted.
pub open spec fn is_counted(name: Seq<char>) -> bool {
    ||| name == "GetCommandLineW"@
    ||| name == "GetLastError"@
    ||| name == "GetTickCount"@
    ||| name == "GetVersion"@
    ||| name == "GetCurrentProcess"@
    ||| name == "CloseHandle"@
    ||| name == "FindClose"@
    ||| name == "FreeLibrary"@
    ||| name == "GetFileAttributesW"@
    ||| name == "DeleteFileW"@
    ||| name == "GlobalFree"@
    ||| name == "GlobalLock"@
    ||| name == "GlobalUnlock"@
    ||| name == "GetModuleHandleA"@
    ||| name == "GetModuleHandleW"@
    ||| name == "Sleep"@
    ||| name == "lstrlenA"@
    ||| name == "lstrlenW"@
    ||| name == "DestroyWindow"@
    ||| name == "GetDC"@
    ||| name == "IsWindow"@
    ||| name == "PostQuitMessage"@
    ||| name == "RegisterClassW"@
    ||| name == "TranslateMessage"@
    ||| name == "DispatchMessageW"@
    ||| name == "CreateFontIndirectW"@
    ||| name == "RegCloseKey"@
    ||| name == "CreateDirectoryW"@
    ||| name == "GetFileSize"@
    ||| name == "GlobalAlloc"@
    ||| name == "MoveFileW"@
    ||| name == "WaitForSingleObject"@
    ||| name == "GetTempPathW"@
    ||| name == "GetSystemDirectoryW"@
    ||| name == "GetWindowsDirectoryW"@
    ||| name == "EndDialog"@
    ||| name == "EndPaint"@
    ||| name == "GetClientRect"@
    ||| name == "GetDlgItem"@
    ||| name == "GetWindowLongW"@
    ||| name == "GetWindowRect"@
    ||| name == "SetWindowTextW"@
    ||| name == "ShowWindow"@
    ||| name == "BeginPaint"@
    ||| name == "SelectObject"@
    ||| name == "SetBkColor"@
    ||| name == "SetBkMode"@
    ||| name == "SetTextColor"@
    ||| name == "RegDeleteKeyW"@
    ||| name == "RegDeleteValueW"@
    ||| name == "lstrcatW"@
    ||| name == "lstrcmpW"@
    ||| name == "lstrcmpiA"@
    ||| name == "lstrcmpiW"@
    ||| name == "lstrcpyA"@
    ||| name == "lstrcpyW"@
    ||| name == "CopyFileW"@
    ||| name == "LoadLibraryExW"@
    ||| name == "MoveFileExW"@
    ||| name == "InvalidateRect"@
    ||| name == "SetDlgItemTextW"@
    ||| name == "SetWindowLongW"@
    ||| name == "lstrcpynW"@
    ||| name == "GetModuleFileNameW"@
    ||| name == "FillRect"@
    ||| name == "GetFullPathNameW"@
    ||| name == "SetFilePointer"@
    ||| name == "SetFileTime"@
    ||| name == "GetTempFileNameW"@
    ||| name == "DefWindowProcW"@
    ||| name == "GetDlgItemTextW"@
    ||| name == "SendMessageW"@
    ||| name == "GetMessageW"@
    ||| name == "ReadFile"@
    ||| name == "WriteFile"@
    ||| name == "CreateDialogParamW"@
    ||| name == "DialogBoxParamW"@
    ||| name == "PeekMessageW"@
    ||| name == "RegOpenKeyExW"@
    ||| name == "CoCreateInstance"@
    ||| name == "CreateThread"@
    ||| name == "RegQueryValueExW"@
    ||| name == "RegSetValueExW"@
    ||| name == "CreateFileW"@
    ||| name == "SetWindowPos"@
    ||| name == "RegEnumValueW"@
    ||| name == "RegCreateKeyExW"@
    ||| name == "CreateWindowExW"@
}

/// The symbols with a service whose calls are counted.
fn counts(name: &str) -> (r: bool)
    ensures
        r == is_counted(name@),
{
    str_eq(name, "GetCommandLineW")
        || str_eq(name, "GetLastError")
        || str_eq(name, "GetTickCount")
        || str_eq(name, "GetVersion")
        || str_eq(name, "GetCurrentProcess")
        || str_eq(name, "CloseHandle")
        || str_eq(name, "FindClose")
        || str_eq(name, "FreeLibrary")
        || str_eq(name, "GetFileAttributesW")
        || str_eq(name, "DeleteFileW")
        || str_eq(name, "GlobalFree")
        || str_eq(name, "GlobalLock")
        || str_eq(name, "GlobalUnlock")
        || str_eq(name, "GetModuleHandleA")
        || str_eq(name, "GetModuleHandleW")
        || str_eq(name, "Sleep")
        || str_eq(name, "lstrlenA")
        || str_eq(name, "lstrlenW")
        || str_eq(name, "DestroyWindow")
        || str_eq(name, "GetDC")
        || str_eq(name, "IsWindow")
        || str_eq(name, "PostQuitMessage")
        || str_eq(name, "RegisterClassW")
        || str_eq(name, "TranslateMessage")
        || str_eq(name, "DispatchMessageW")
        || str_eq(name, "CreateFontIndirectW")
        || str_eq(name, "RegCloseKey")
        || str_eq(name, "CreateDirectoryW")
        || str_eq(name, "GetFileSize")
        || str_eq(name, "GlobalAlloc")
        || str_eq(name, "MoveFileW")
        || str_eq(name, "WaitForSingleObject")
        || str_eq(name, "GetTempPathW")
        || str_eq(name, "GetSystemDirectoryW")
        || str_eq(name, "GetWindowsDirectoryW")
        || str_eq(name, "EndDialog")
        || str_eq(name, "EndPaint")
        || str_eq(name, "GetClientRect")
        || str_eq(name, "GetDlgItem")
        || str_eq(name, "GetWindowLongW")
        || str_eq(name, "GetWindowRect")
        || str_eq(name, "SetWindowTextW")
        || str_eq(name, "ShowWindow")
        || str_eq(name, "BeginPaint")
        || str_eq(name, "SelectObject")
        || str_eq(name, "SetBkColor")
        || str_eq(name, "SetBkMode")
        || str_eq(name, "SetTextColor")
        || str_eq(name, "RegDeleteKeyW")
        || str_eq(name, "RegDeleteValueW")
        || str_eq(name, "lstrcatW")
        || str_eq(name, "lstrcmpW")
        || str_eq(name, "lstrcmpiA")
        || str_eq(name, "lstrcmpiW")
        || str_eq(name, "lstrcpyA")
        || str_eq(name, "lstrcpyW")
        || str_eq(name, "CopyFileW")
        || str_eq(name, "LoadLibraryExW")
        || str_eq(name, "MoveFileExW")
        || str_eq(name, "InvalidateRect")
        || str_eq(name, "SetDlgItemTextW")
        || str_eq(name, "SetWindowLongW")
        || str_eq(name, "lstrcpynW")
        || str_eq(name, "GetModuleFileNameW")
        || str_eq(name, "FillRect")
        || str_eq(name, "GetFullPathNameW")
        || str_eq(name, "SetFilePointer")
        || str_eq(name, "SetFileTime")
        || str_eq(name, "GetTempFileNameW")
        || str_eq(name, "DefWindowProcW")
        || str_eq(name, "GetDlgItemTextW")
        || str_eq(name, "SendMessageW")
        || str_eq(name, "GetMessageW")
        || str_eq(name, "ReadFile")
        || str_eq(name, "WriteFile")
        || str_eq(name, "CreateDialogParamW")
        || str_eq(name, "DialogBoxParamW")
        || str_eq(name, "PeekMessageW")
        || str_eq(name, "RegOpenKeyExW")
        || str_eq(name, "CoCreateInstance")
        || str_eq(name, "CreateThread")
        || str_eq(name, "RegQueryValueExW")
        || str_eq(name, "RegSetValueExW")
        || str_eq(name, "CreateFileW")
        || str_eq(name, "SetWindowPos")
        || str_eq(name, "RegEnumValueW")
        || str_eq(name, "RegCreateKeyExW")
        || str_eq(name, "CreateWindowExW")
}

/// Whether `name` stands for an import by number.
pub open spec fn is_ordinal(name: Seq<char>) -> bool {
    name.len() >= 4 && name.take(4) == "#ord"@
}

/// How many stack arguments a 32-bit call of a symbol without a service pops, where
/// that is known.
pub open spec fn named_argc(name: Seq<char>) -> Option<u32> {
    if takes_0(name) {
        Some(0)
    } else if takes_1(name) {
        Some(1)
    } else if takes_2(name) {
        Some(2)
    } else if takes_3(name) {
        Some(3)
    } else if takes_4(name) {
        Some(4)
    } else if takes_5(name) {
        Some(5)
    } else if takes_6(name) {
        Some(6)
    } else if takes_7(name) {
        Some(7)
    } else if takes_8(name) {
        Some(8)
    } else if name == "CreateProcessW"@ {
        Some(10)
    } else {
        None
    }
}

/// How many stack arguments a 32-bit call pops, where that is known: as many as the
/// service of the symbol, where it has one.
pub open spec fn stdcall_argc(dll: Seq<char>, name: Seq<char>) -> Option<u32> {
    match served_by(name) {
        Some(a) => if is_counted(name) {
            Some(a.pops())
        } else {
            None
        },
        None => if is_ordinal(name) {
            if dll == "comctl32.dll"@ && name == "#ord17"@ {
                Some(0)
            } else {
                None
            }
        } else {
            named_argc(name)
        },
    }
}

/// How many stack arguments a 32-bit call of `dll!name` pops, where that is
/// known. Calls with a variable number of arguments pop none.
pub fn win32_argc(dll: &str, name: &str) -> (r: Option<u32>)
    ensures
        r == stdcall_argc(dll@, name@),
{
    if let Some(a) = find_served(name) {
        return if counts(name) {
            Some(a.argc())
        } else {
            None
        };
    }
    let cs = chars_of(name);
    if cs.len() >= 4 {
        let head = sub_chars(&cs, 0, 4);
        let text = string_of(&head);
        proof {
            assert(name@.subrange(0, 4) =~= name@.take(4));
        }
        if str_eq(&text, "#ord") {
            return if str_eq(dll, "comctl32.dll") && str_eq(name, "#ord17") {
                Some(0)
            } else {
                None
            };
        }
    }
    if pops_0(name) {
        Some(0)
    } else if pops_1(name) {
        Some(1)
    } else if pops_2(name) {
        Some(2)
    } else if pops_3(name) {
        Some(3)
    } else if pops_4(name) {
        Some(4)
    } else if pops_5(name) {
        Some(5)
    } else if pops_6(name) {
        Some(6)
    } else if pops_7(name) {
        Some(7)
    } else if pops_8(name) {
        Some(8)
    } else if str_eq(name, "CreateProcessW") {
        Some(10)
    } else {
        None
    }
}

/// A symbol with its module: `dll!name`.
pub open spec fn symbol_text(dll: Seq<char>, name: Seq<char>) -> Seq<char> {
    dll + seq!['!'] + name
}

/// A symbol with its module: `dll!name`.
pub fn symbol_name(dll: &str, name: &str) -> (r: String)
    ensures
        r@ == symbol_text(dll@, name@),
{
    let mut out: Vec<char> = Vec::new();
    append_str(&mut out, dll);
    out.push('!');
    append_str(&mut out, name);
    assert(out@ =~= symbol_text(dll@, name@));
    string_of(&out)
}

/// The service of `name` where it carries nothing but itself.
pub open spec fn plain_api(name: Seq<char>) -> Option<Api> {
    if process_api(name) is Some {
        process_api(name)
    } else if runtime_api(name) is Some {
        runtime_api(name)
    } else if strings_api(name) is Some {
        strings_api(name)
    } else if files_api(name) is Some {
        files_api(name)
    } else if dialogs_api(name) is Some {
        dialogs_api(name)
    } else if windows_api(name) is Some {
        windows_api(name)
    } else {
        None
    }
}

/// What a window call without effect answers with.
pub open spec fn stub_value(name: Seq<char>) -> Option<u64> {
    if name == "GetSysColor"@ {
        Some(0x00C0_C0C0)
    } else if name == "GetSystemMetrics"@ {
        Some(0)
    } else if is_plain_stub(name) {
        Some(TRUE)
    } else {
        None
    }
}

/// Whether `api` is what the import `dll!name` leads to.
pub open spec fn classified(dll: Seq<char>, name: Seq<char>, api: Api) -> bool {
    let pops = match stdcall_argc(dll, name) {
        Some(n) => n,
        None => 0,
    };
    match served_by(name) {
        Some(a) => api == a,
        None => if is_fake_handle(name) {
            match api {
                Api::FakeHandle { sym, argc } => sym@ == symbol_text(dll, name) && argc == pops,
                _ => false,
            }
        } else {
            match stub_value(name) {
                Some(v) => api == (Api::WinStub { r: v, argc: pops }),
                None => match api {
                    Api::Unsupported { sym, argc } => sym@ == symbol_text(dll, name) && argc
                        == pops,
                    _ => false,
                },
            }
        },
    }
}

/// A symbol has one count: the thunk that an import leads to pops as many arguments
/// as the symbol is known to take.
pub proof fn lemma_counts_agree(dll: Seq<char>, name: Seq<char>, api: Api)
    requires
        classified(dll, name, api),
    ensures
        stdcall_argc(dll, name) matches Some(n) ==> api.pops() == n,
{
}

impl Api {
    /// The service that the import `dll!name` leads to.
    pub fn classify(dll: &str, name: &str) -> (api: Api)
        ensures
            classified(dll@, name@, api),
            stdcall_argc(dll@, name@) matches Some(n) ==> api.pops() == n,
    {
        if let Some(a) = find_served(name) {
            return a;
        }
        let argc: u32 = match win32_argc(dll, name) {
            Some(n) => n,
            None => 0,
        };
        if takes_fake_handle(name) {
            Api::FakeHandle { sym: symbol_name(dll, name), argc }
        } else if str_eq(name, "GetSysColor") {
            Api::WinStub { r: 0x00C0_C0C0, argc }
        } else if str_eq(name, "GetSystemMetrics") {
            Api::WinStub { r: 0, argc }
        } else if takes_plain_stub(name) {
            Api::WinStub { r: TRUE, argc }
        } else {
            Api::Unsupported { sym: symbol_name(dll, name), argc }
        }
    }

    /// How many stack arguments a 32-bit call pops on return. The C runtime
    /// leaves them to its caller.
    pub open spec fn pops(self) -> u32 {
        match self {
            Api::GetStdHandle
            | Api::ExitProcess
            | Api::GetModuleHandleA
            | Api::GetModuleHandleW
            | Api::SetLastError
            | Api::Sleep
            | Api::QueryPerformanceCounter
            | Api::QueryPerformanceFrequency
            | Api::GetSystemTimeAsFileTime
            | Api::SetConsoleCP
            | Api::SetConsoleOutputCP
            | Api::GetStartupInfoA
            | Api::GetStartupInfoW
            | Api::FreeEnvironmentStringsW
            | Api::LoadLibraryA
            | Api::FreeLibrary
            | Api::CharNextA
            | Api::CharNextW
            | Api::LstrlenA
            | Api::LstrlenW
            | Api::CloseHandle
            | Api::DeleteFileW
            | Api::GetFileAttributesW
            | Api::GlobalLock
            | Api::GlobalFreeUnlock
            | Api::GetVersionEx
            | Api::DestroyWindowApi
            | Api::PostQuitMessageApi
            | Api::RegisterClassApi { .. }
            | Api::CreateSolidBrushApi
            | Api::GetStockObjectApi
            | Api::DispatchMessageApi => 1,
            Api::TerminateProcess
            | Api::GetConsoleMode
            | Api::SetConsoleMode
            | Api::GetProcAddress
            | Api::CharPrevW
            | Api::LstrcpyW
            | Api::LstrcatW
            | Api::LstrcmpW
            | Api::LstrcmpiW
            | Api::GetDlgItemApi
            | Api::SetWindowTextApi
            | Api::IsDialogMessageApi
            | Api::EndDialogApi
            | Api::CreateDirectoryW
            | Api::GetTempPathW
            | Api::GetFileSizeApi
            | Api::GlobalAlloc
            | Api::GetSystemDirectoryW
            | Api::GetWindowsDirectoryW
            | Api::BeginPaintApi
            | Api::EndPaintApi
            | Api::GetClientRectApi
            | Api::SetTextColorApi
            | Api::SelectObjectApi => 2,
            Api::HeapAlloc
            | Api::HeapFree
            | Api::VirtualFree
            | Api::LstrcpynW
            | Api::SetDlgItemTextW
            | Api::GetModuleFileNameW
            | Api::FillRectApi
            | Api::CreatePenApi
            | Api::GetWindowTextApi
            | Api::LineToApi => 3,
            Api::HeapReAlloc
            | Api::VirtualAlloc
            | Api::GetDlgItemTextW
            | Api::SendMessageApi
            | Api::GetMessageApi
            | Api::SetFilePointerApi
            | Api::GetTempFileNameW
            | Api::DefWindowProcApi
            | Api::MoveToExApi
            | Api::SetPixelApi => 4,
            Api::WriteFile
            | Api::WriteConsoleA
            | Api::WriteConsoleW
            | Api::PeekMessageApi
            | Api::CreateDialogParam { .. }
            | Api::CoCreateInstanceApi
            | Api::ReadFileApi
            | Api::RectangleApi
            | Api::TextOutApi => 5,
            Api::CreateFileW => 7,
            Api::CreateWindowExApi => 12,
            Api::WinStub { argc, .. } | Api::FakeHandle { argc, .. } | Api::Unsupported { argc, .. } => argc,
            Api::Bound(n) => n.pops(),
            _ => 0,
        }
    }

    /// How many stack arguments a 32-bit call pops on return.
    pub fn argc(&self) -> (r: u32)
        ensures
            r == self.pops(),
    {
        match self {
            Api::GetStdHandle
            | Api::ExitProcess
            | Api::GetModuleHandleA
            | Api::GetModuleHandleW
            | Api::SetLastError
            | Api::Sleep
            | Api::QueryPerformanceCounter
            | Api::QueryPerformanceFrequency
            | Api::GetSystemTimeAsFileTime
            | Api::SetConsoleCP
            | Api::SetConsoleOutputCP
            | Api::GetStartupInfoA
            | Api::GetStartupInfoW
            | Api::FreeEnvironmentStringsW
            | Api::LoadLibraryA
            | Api::FreeLibrary
            | Api::CharNextA
            | Api::CharNextW
            | Api::LstrlenA
            | Api::LstrlenW
            | Api::CloseHandle
            | Api::DeleteFileW
            | Api::GetFileAttributesW
            | Api::GlobalLock
            | Api::GlobalFreeUnlock
            | Api::GetVersionEx
            | Api::DestroyWindowApi
            | Api::PostQuitMessageApi
            | Api::RegisterClassApi { .. }
            | Api::CreateSolidBrushApi
            | Api::GetStockObjectApi
            | Api::DispatchMessageApi => 1,
            Api::TerminateProcess
            | Api::GetConsoleMode
            | Api::SetConsoleMode
            | Api::GetProcAddress
            | Api::CharPrevW
            | Api::LstrcpyW
            | Api::LstrcatW
            | Api::LstrcmpW
            | Api::LstrcmpiW
            | Api::GetDlgItemApi
            | Api::SetWindowTextApi
            | Api::IsDialogMessageApi
            | Api::EndDialogApi
            | Api::CreateDirectoryW
            | Api::GetTempPathW
            | Api::GetFileSizeApi
            | Api::GlobalAlloc
            | Api::GetSystemDirectoryW
            | Api::GetWindowsDirectoryW
            | Api::BeginPaintApi
            | Api::EndPaintApi
            | Api::GetClientRectApi
            | Api::SetTextColorApi
            | Api::SelectObjectApi => 2,
            Api::HeapAlloc
            | Api::HeapFree
            | Api::VirtualFree
            | Api::LstrcpynW
            | Api::SetDlgItemTextW
            | Api::GetModuleFileNameW
            | Api::FillRectApi
            | Api::CreatePenApi
            | Api::GetWindowTextApi
            | Api::LineToApi => 3,
            Api::HeapReAlloc
            | Api::VirtualAlloc
            | Api::GetDlgItemTextW
            | Api::SendMessageApi
            | Api::GetMessageApi
            | Api::SetFilePointerApi
            | Api::GetTempFileNameW
            | Api::DefWindowProcApi
            | Api::MoveToExApi
            | Api::SetPixelApi => 4,
            Api::WriteFile
            | Api::WriteConsoleA
            | Api::WriteConsoleW
            | Api::PeekMessageApi
            | Api::CreateDialogParam { .. }
            | Api::CoCreateInstanceApi
            | Api::ReadFileApi
            | Api::RectangleApi
            | Api::TextOutApi => 5,
            Api::CreateFileW => 7,
            Api::CreateWindowExApi => 12,
            Api::WinStub { argc, .. } | Api::FakeHandle { argc, .. } | Api::Unsupported { argc, .. } => *argc,
            Api::Bound(n) => n.argc(),
            _ => 0,
        }
    }
}

} // verus!
