//! What the services promise a guest, stated over whole calls: how the answers of calls
//! relate to their arguments, to memory and to each other.

use vstd::prelude::*;

use crate::api::Api;
use crate::call::{arg_at, args_at, Outcome};
use crate::cpu::{CpuView, Reg};
use crate::dispatch::{
    bound_group, console_group, dialog_group, dispatch_out, drawing_group, driver_group,
    files_group, fixed_answer, memory_group, process_group, text_group, window_group,
};
use crate::host::HostReply;
use crate::mem::{lemma_pow256, lemma_store_all_get, opt, s32, Fault, MemView};
use crate::os::{OsOut, OsView};
use crate::serve::answered;

pub mod controls;
pub mod files;
pub mod heap;
pub mod loader;
pub mod memory;
pub mod native;
pub mod paths;
pub mod process;
pub mod registry;
pub mod served;
pub mod server;
pub mod text;
pub mod threads;
pub mod windows;

verus! {

/// Whether a call has the arguments `a`.
pub open spec fn given(v: OsView, c: CpuView, m: MemView, a: Seq<u64>) -> bool {
    forall|i: int|
        0 <= i < a.len() ==> arg_at(v.wide(), c, m, i as u64) == Ok::<u64, Fault>(#[trigger] a[i])
}

/// Whether a call returns to its caller with `x`.
pub open spec fn gives(o: OsOut, x: u64) -> bool {
    o.r == Ok::<Outcome, Fault>(Outcome::Return(x))
}

/// What a call that has its arguments reads of them.
pub proof fn lemma_given(v: OsView, c: CpuView, m: MemView, a: Seq<u64>, list: Seq<u64>)
    requires
        given(v, c, m, a),
        a.len() <= 64,
        forall|i: int| 0 <= i < list.len() ==> (#[trigger] list[i]) < a.len(),
    ensures
        args_at(v.wide(), c, m, list) == Ok::<Seq<u64>, Fault>(
            Seq::new(list.len(), |i: int| a[list[i] as int]),
        ),
    decreases list.len(),
{
    let want = Seq::new(list.len(), |i: int| a[list[i] as int]);
    if list.len() == 0 {
        assert(want =~= Seq::empty());
    } else {
        let d = list.drop_last();
        assert forall|i: int| 0 <= i < d.len() implies (#[trigger] d[i]) < a.len() by {
            assert(d[i] == list[i]);
        }
        lemma_given(v, c, m, a, d);
        let k = list[list.len() - 1] as int;
        assert(arg_at(v.wide(), c, m, k as u64) == Ok::<u64, Fault>(a[k]));
        assert(want =~= Seq::new(d.len(), |i: int| a[d[i] as int]).push(a[k]));
    }
}

/// What a call that has its arguments reads as one of them.
pub proof fn lemma_read_1(v: OsView, c: CpuView, m: MemView, a: Seq<u64>, x: u64)
    requires
        given(v, c, m, a),
        a.len() <= 64,
        x < a.len(),
    ensures
        args_at(v.wide(), c, m, seq![x]) == Ok::<Seq<u64>, Fault>(
            seq![a[x as int]],
        ),
{
    let list = seq![x];
    lemma_given(v, c, m, a, list);
    assert(Seq::new(list.len(), |i: int| a[list[i] as int]) =~= seq![a[x as int]]);
}

/// What a call that has its arguments reads as two of them.
pub proof fn lemma_read_2(v: OsView, c: CpuView, m: MemView, a: Seq<u64>, x: u64, y: u64)
    requires
        given(v, c, m, a),
        a.len() <= 64,
        x < a.len(),
        y < a.len(),
    ensures
        args_at(v.wide(), c, m, seq![x, y]) == Ok::<Seq<u64>, Fault>(
            seq![a[x as int], a[y as int]],
        ),
{
    let list = seq![x, y];
    lemma_given(v, c, m, a, list);
    assert(Seq::new(list.len(), |i: int| a[list[i] as int]) =~= seq![a[x as int], a[y as int]]);
}

/// What a call that has its arguments reads as three of them.
pub proof fn lemma_read_3(v: OsView, c: CpuView, m: MemView, a: Seq<u64>, x: u64, y: u64, z: u64)
    requires
        given(v, c, m, a),
        a.len() <= 64,
        x < a.len(),
        y < a.len(),
        z < a.len(),
    ensures
        args_at(v.wide(), c, m, seq![x, y, z]) == Ok::<Seq<u64>, Fault>(
            seq![a[x as int], a[y as int], a[z as int]],
        ),
{
    let list = seq![x, y, z];
    lemma_given(v, c, m, a, list);
    assert(Seq::new(list.len(), |i: int| a[list[i] as int]) =~= seq![a[x as int], a[y as int], a[z as int]]);
}

/// What a call that has its arguments reads as four of them.
pub proof fn lemma_read_4(v: OsView, c: CpuView, m: MemView, a: Seq<u64>, x: u64, y: u64, z: u64, t: u64)
    requires
        given(v, c, m, a),
        a.len() <= 64,
        x < a.len(),
        y < a.len(),
        z < a.len(),
        t < a.len(),
    ensures
        args_at(v.wide(), c, m, seq![x, y, z, t]) == Ok::<Seq<u64>, Fault>(
            seq![a[x as int], a[y as int], a[z as int], a[t as int]],
        ),
{
    let list = seq![x, y, z, t];
    lemma_given(v, c, m, a, list);
    assert(Seq::new(list.len(), |i: int| a[list[i] as int]) =~= seq![a[x as int], a[y as int], a[z as int], a[t as int]]);
}

/// What a call that has its arguments reads as a list of them.
pub proof fn lemma_read_list(
    v: OsView,
    c: CpuView,
    m: MemView,
    a: Seq<u64>,
    list: Seq<u64>,
    want: Seq<u64>,
)
    requires
        given(v, c, m, a),
        a.len() <= 64,
        want.len() == list.len(),
        forall|i: int|
            0 <= i < list.len() ==> (#[trigger] list[i]) < a.len() && want[i] == a[list[i] as int],
    ensures
        args_at(v.wide(), c, m, list) == Ok::<Seq<u64>, Fault>(want),
{
    lemma_given(v, c, m, a, list);
    assert(Seq::new(list.len(), |i: int| a[list[i] as int]) =~= want);
}

/// A word that a call stored through a pointer is read back.
pub proof fn lemma_told(m: MemView, p: u64, x: u32)
    requires
        p != 0,
        m.can_read(p as int, 4),
        m.store_all(opt(s32(p, x))).fault is None,
    ensures
        m.store_all(opt(s32(p, x))).mem.r32(p) == Ok::<u32, Fault>(x),
{
    let t = seq![s32(p, x)];
    assert(opt(s32(p, x)) =~= t);
    lemma_pow256();
    lemma_store_all_get(m, t, 0);
}

/// Where a call finds its arguments. The caller of 64-bit code has a slot of eight bytes for
/// each of them on its stack, from where its stack pointer was before the call pushed the
/// return address; the first four come in registers in place of their slots. The caller of
/// 32-bit code has a slot of four bytes for each of them.
pub proof fn lemma_arguments(v: OsView, c: CpuView, m: MemView, i: u64)
    requires
        i < 64,
        c.rsp() + 8 * i + 8 <= u64::MAX,
    ensures
        v.wide() && i >= 4 ==> arg_at(v.wide(), c, m, i) == m.r64((c.rsp() + 8 + 8 * i) as u64),
        v.wide() ==> {
            &&& arg_at(true, c, m, 0) == Ok::<u64, Fault>(c.reg(Reg::Rcx))
            &&& arg_at(true, c, m, 1) == Ok::<u64, Fault>(c.reg(Reg::Rdx))
            &&& arg_at(true, c, m, 2) == Ok::<u64, Fault>(c.reg(Reg::R8))
            &&& arg_at(true, c, m, 3) == Ok::<u64, Fault>(c.reg(Reg::R9))
        },
        !v.wide() ==> {
            let x = m.r32((c.rsp() + 4 + 4 * i) as u64);
            &&& x is Ok ==> arg_at(v.wide(), c, m, i) == Ok::<u64, Fault>(x->Ok_0 as u64)
            &&& x is Err ==> arg_at(v.wide(), c, m, i) is Err
        },
{
}

/// Which services serve a call.
pub enum Kind {
    Fixed,
    Process,
    Driver,
    Memory,
    Text,
    Console,
    Files,
    Dialog,
    Window,
    Drawing,
    Bound,
}

/// Which services serve a call.
pub open spec fn kind_of(api: Api) -> Kind {
    match api {
        Api::ExitProcess
        | Api::ReturnExit
        | Api::TerminateProcess
        | Api::CrtExit
        | Api::GetModuleHandleA
        | Api::GetModuleHandleW
        | Api::LoadLibraryA
        | Api::FreeLibrary
        | Api::GetProcAddress
        | Api::SetLastError
        | Api::GetEnvironmentStringsW
        | Api::GetMainArgs
        | Api::GetStartupInfoA
        | Api::GetStartupInfoW
        | Api::GetVersionEx
        | Api::QueryPerformanceCounter
        | Api::QueryPerformanceFrequency
        | Api::GetSystemTimeAsFileTime => Kind::Process,
        Api::Sleep
        | Api::Initterm
        | Api::InittermDriver
        | Api::CallbackDriver
        | Api::ThreadExit
        | Api::ThreadTlsAttach
        | Api::ThreadStartEntry
        | Api::WineUnixCall => Kind::Driver,
        Api::HeapAlloc
        | Api::Malloc
        | Api::GlobalAlloc
        | Api::Calloc
        | Api::HeapReAlloc
        | Api::Realloc
        | Api::GlobalLock
        | Api::VirtualAlloc
        | Api::VirtualFree
        | Api::Memcpy
        | Api::Memset => Kind::Memory,
        Api::Memcmp
        | Api::Strlen
        | Api::LstrlenA
        | Api::LstrlenW
        | Api::CharNextA
        | Api::CharNextW
        | Api::CharPrevW
        | Api::LstrcpyW
        | Api::LstrcatW
        | Api::LstrcpynW
        | Api::LstrcmpW
        | Api::LstrcmpiW => Kind::Text,
        Api::GetStdHandle
        | Api::GetConsoleMode
        | Api::WriteFile
        | Api::WriteConsoleA
        | Api::WriteConsoleW
        | Api::Fputs
        | Api::Puts
        | Api::Fputc
        | Api::Fwrite => Kind::Console,
        Api::CreateFileW
        | Api::ReadFileApi
        | Api::CloseHandle
        | Api::CreateDirectoryW
        | Api::DeleteFileW
        | Api::GetFileAttributesW
        | Api::GetFileSizeApi
        | Api::SetFilePointerApi
        | Api::GetTempFileNameW
        | Api::GetTempPathW
        | Api::GetSystemDirectoryW
        | Api::GetWindowsDirectoryW
        | Api::GetModuleFileNameW => Kind::Files,
        Api::CreateDialogParam { .. }
        | Api::SetDlgItemTextW
        | Api::GetDlgItemTextW
        | Api::GetDlgItemApi
        | Api::SendMessageApi
        | Api::SetWindowTextApi
        | Api::GetWindowTextApi
        | Api::GetMessageApi
        | Api::PeekMessageApi
        | Api::CoCreateInstanceApi
        | Api::DestroyWindowApi
        | Api::PostQuitMessageApi
        | Api::EndDialogApi => Kind::Dialog,
        Api::RegisterClassApi { .. }
        | Api::CreateWindowExApi
        | Api::DefWindowProcApi
        | Api::DispatchMessageApi
        | Api::BeginPaintApi
        | Api::EndPaintApi
        | Api::GetClientRectApi => Kind::Window,
        Api::FillRectApi
        | Api::RectangleApi
        | Api::TextOutApi
        | Api::SetTextColorApi
        | Api::CreateSolidBrushApi
        | Api::CreatePenApi
        | Api::GetStockObjectApi
        | Api::SelectObjectApi
        | Api::MoveToExApi
        | Api::LineToApi
        | Api::SetPixelApi => Kind::Drawing,
        Api::Bound(_) => Kind::Bound,
        _ => Kind::Fixed,
    }
}

proof fn lemma_process_kind(v: OsView, api: Api, c: CpuView, m: MemView, host: HostReply)
    ensures
        process_group(v, api, c, m, host) is Some <==> kind_of(api) is Process,
{
    reveal(process_group);
}

proof fn lemma_driver_kind(v: OsView, api: Api, c: CpuView, m: MemView, host: HostReply)
    ensures
        driver_group(v, api, c, m, host) is Some <==> kind_of(api) is Driver,
{
    reveal(driver_group);
}

proof fn lemma_memory_kind(v: OsView, api: Api, c: CpuView, m: MemView, host: HostReply)
    ensures
        memory_group(v, api, c, m, host) is Some <==> kind_of(api) is Memory,
{
    reveal(memory_group);
}

proof fn lemma_text_kind(v: OsView, api: Api, c: CpuView, m: MemView, host: HostReply)
    ensures
        text_group(v, api, c, m, host) is Some <==> kind_of(api) is Text,
{
    reveal(text_group);
}

proof fn lemma_console_kind(v: OsView, api: Api, c: CpuView, m: MemView, host: HostReply)
    ensures
        console_group(v, api, c, m, host) is Some <==> kind_of(api) is Console,
{
    reveal(console_group);
}

proof fn lemma_files_kind(v: OsView, api: Api, c: CpuView, m: MemView, host: HostReply)
    ensures
        files_group(v, api, c, m, host) is Some <==> kind_of(api) is Files,
{
    reveal(files_group);
}

proof fn lemma_dialog_kind(v: OsView, api: Api, c: CpuView, m: MemView, host: HostReply)
    ensures
        dialog_group(v, api, c, m, host) is Some <==> kind_of(api) is Dialog,
{
    reveal(dialog_group);
}

proof fn lemma_window_kind(v: OsView, api: Api, c: CpuView, m: MemView, host: HostReply)
    ensures
        window_group(v, api, c, m, host) is Some <==> kind_of(api) is Window,
{
    reveal(window_group);
}

proof fn lemma_drawing_kind(v: OsView, api: Api, c: CpuView, m: MemView, host: HostReply)
    ensures
        drawing_group(v, api, c, m, host) is Some <==> kind_of(api) is Drawing,
{
    reveal(drawing_group);
}

proof fn lemma_bound_kind(v: OsView, api: Api, c: CpuView, m: MemView, host: HostReply)
    ensures
        bound_group(v, api, c, m, host) is Some <==> kind_of(api) is Bound,
{
    reveal(bound_group);
}

proof fn lemma_kinds(v: OsView, api: Api, c: CpuView, m: MemView, host: HostReply)
    ensures
        process_group(v, api, c, m, host) is Some <==> kind_of(api) is Process,
        driver_group(v, api, c, m, host) is Some <==> kind_of(api) is Driver,
        memory_group(v, api, c, m, host) is Some <==> kind_of(api) is Memory,
        text_group(v, api, c, m, host) is Some <==> kind_of(api) is Text,
        console_group(v, api, c, m, host) is Some <==> kind_of(api) is Console,
        files_group(v, api, c, m, host) is Some <==> kind_of(api) is Files,
        dialog_group(v, api, c, m, host) is Some <==> kind_of(api) is Dialog,
        window_group(v, api, c, m, host) is Some <==> kind_of(api) is Window,
        drawing_group(v, api, c, m, host) is Some <==> kind_of(api) is Drawing,
        bound_group(v, api, c, m, host) is Some <==> kind_of(api) is Bound,
        fixed_answer(v, api) is Some ==> kind_of(api) is Fixed,
{
    lemma_process_kind(v, api, c, m, host);
    lemma_driver_kind(v, api, c, m, host);
    lemma_memory_kind(v, api, c, m, host);
    lemma_text_kind(v, api, c, m, host);
    lemma_console_kind(v, api, c, m, host);
    lemma_files_kind(v, api, c, m, host);
    lemma_dialog_kind(v, api, c, m, host);
    lemma_window_kind(v, api, c, m, host);
    lemma_drawing_kind(v, api, c, m, host);
    lemma_bound_kind(v, api, c, m, host);
}

/// A call that has no effect is answered with what is fixed for it.
pub proof fn lemma_fixed_serves(v: OsView, api: Api, c: CpuView, m: MemView, host: HostReply)
    ensures
        fixed_answer(v, api) matches Some(x) ==> dispatch_out(v, api, c, m, host) == answered(
            v,
            c,
            m,
            x,
        ),
{
    lemma_kinds(v, api, c, m, host);
    reveal(dispatch_out);
}

/// A call that the services on the process serve is served by them.
pub proof fn lemma_process_serves(v: OsView, api: Api, c: CpuView, m: MemView, host: HostReply)
    requires
        kind_of(api) is Process,
    ensures
        process_group(v, api, c, m, host) == Some(dispatch_out(v, api, c, m, host)),
{
    lemma_kinds(v, api, c, m, host);
    reveal(dispatch_out);
}

/// A call that the services on calls that move control serve is served by them.
pub proof fn lemma_driver_serves(v: OsView, api: Api, c: CpuView, m: MemView, host: HostReply)
    requires
        kind_of(api) is Driver,
    ensures
        driver_group(v, api, c, m, host) == Some(dispatch_out(v, api, c, m, host)),
{
    lemma_kinds(v, api, c, m, host);
    reveal(dispatch_out);
}

/// A call that the services on memory serve is served by them.
pub proof fn lemma_memory_serves(v: OsView, api: Api, c: CpuView, m: MemView, host: HostReply)
    requires
        kind_of(api) is Memory,
    ensures
        memory_group(v, api, c, m, host) == Some(dispatch_out(v, api, c, m, host)),
{
    lemma_kinds(v, api, c, m, host);
    reveal(dispatch_out);
}

/// A call that the services on strings serve is served by them.
pub proof fn lemma_text_serves(v: OsView, api: Api, c: CpuView, m: MemView, host: HostReply)
    requires
        kind_of(api) is Text,
    ensures
        text_group(v, api, c, m, host) == Some(dispatch_out(v, api, c, m, host)),
{
    lemma_kinds(v, api, c, m, host);
    reveal(dispatch_out);
}

/// A call that the services on the console serve is served by them.
pub proof fn lemma_console_serves(v: OsView, api: Api, c: CpuView, m: MemView, host: HostReply)
    requires
        kind_of(api) is Console,
    ensures
        console_group(v, api, c, m, host) == Some(dispatch_out(v, api, c, m, host)),
{
    lemma_kinds(v, api, c, m, host);
    reveal(dispatch_out);
}

/// A call that the services on files serve is served by them.
pub proof fn lemma_files_serves(v: OsView, api: Api, c: CpuView, m: MemView, host: HostReply)
    requires
        kind_of(api) is Files,
    ensures
        files_group(v, api, c, m, host) == Some(dispatch_out(v, api, c, m, host)),
{
    lemma_kinds(v, api, c, m, host);
    reveal(dispatch_out);
}

/// A call that the services on dialogs and messages serve is served by them.
pub proof fn lemma_dialog_serves(v: OsView, api: Api, c: CpuView, m: MemView, host: HostReply)
    requires
        kind_of(api) is Dialog,
    ensures
        dialog_group(v, api, c, m, host) == Some(dispatch_out(v, api, c, m, host)),
{
    lemma_kinds(v, api, c, m, host);
    reveal(dispatch_out);
}

/// A call that the services on windows serve is served by them.
pub proof fn lemma_window_serves(v: OsView, api: Api, c: CpuView, m: MemView, host: HostReply)
    requires
        kind_of(api) is Window,
    ensures
        window_group(v, api, c, m, host) == Some(dispatch_out(v, api, c, m, host)),
{
    lemma_kinds(v, api, c, m, host);
    reveal(dispatch_out);
}

/// A call that the services on drawing serve is served by them.
pub proof fn lemma_drawing_serves(v: OsView, api: Api, c: CpuView, m: MemView, host: HostReply)
    requires
        kind_of(api) is Drawing,
    ensures
        drawing_group(v, api, c, m, host) == Some(dispatch_out(v, api, c, m, host)),
{
    lemma_kinds(v, api, c, m, host);
    reveal(dispatch_out);
}

/// A call that the services on what is bound by name serve is served by them.
pub proof fn lemma_bound_serves(v: OsView, api: Api, c: CpuView, m: MemView, host: HostReply)
    requires
        kind_of(api) is Bound,
    ensures
        bound_group(v, api, c, m, host) == Some(dispatch_out(v, api, c, m, host)),
{
    lemma_kinds(v, api, c, m, host);
    reveal(dispatch_out);
}

} // verus!
