//! Which service an imported symbol is bound to, and how a call is served.

use vstd::prelude::*;

use crate::api::{Api, FALSE, TRUE};
use crate::bound::{bound_asks, bound_out, lemma_bound_registers};
use crate::call::{arg, arg_at, Exit, Outcome, Reply};
use crate::cb::{set_result, with_result};
use crate::clock::{
    get_system_time_as_filetime, get_tick_count, query_performance_counter,
    query_performance_frequency, tick_count, told,
};
use crate::console::{
    console_mode_reply, fputc_out, fwrite_out, get_console_mode, get_std_handle, puts_out,
    std_handle_reply, write_asks, write_out, write_wide_out,
};
use crate::cpu::{CpuState, CpuView, Reg};
use crate::crt::{
    array_out, block_order_reply, block_out, bounded_reply, byte_len_reply, byte_length, char_next,
    char_prev, copy_bounded, copy_reply, copy_string, fill_memory, fill_reply, move_memory,
    move_reply, next_reply, order_blocks, order_reply, order_strings, prev_reply, resize_out,
    wide_len_reply, wide_length,
};
use crate::dialogs::{
    create_dialog_out, end_dialog_out, get_dialog_item, get_item_reply, get_message_asks,
    get_message_out, get_window_text_reply, item_reply, no_object, no_object_reply,
    peek_message_asks, peek_message_out, quit_out, send_out, set_item_out, set_window_text_out,
};
use crate::files::{
    attributes_asks, attributes_reply, close_asks, close_handle_out, create_asks, create_file_out,
    delete_asks, directory_asks, path_reply, read_asks, read_reply, seek_asks, seek_reply,
    size_asks, size_reply, tell_text, temp_file_asks, temp_file_out, told_text,
};
use crate::gdi::FAKE_HANDLE;
use crate::gstr::{guest_text, read_text};
use crate::host::{HostReply, HostRequest, RequestView};
use crate::mem::{ga, Fault, MemView, VirtualMemory};
use crate::named::Named;
use crate::ntvm::{valloc_out, vfree_out, NtVmOut};
use crate::os::{ret, returned, OsOut, OsView, WinOs, HANDLE_PROCESS_HEAP};
use crate::process::{
    callback_next_out, environment_out, exit_now_out, exit_process_out, free_library_out,
    get_proc_out, get_startup_info, get_version_ex, initterm_next_out, initterm_out,
    load_library_out, main_args_out, module_handle_out, startup_reply, unix_out, version_reply,
    CODE_PAGE, VERSION,
};
use crate::sched::preempted;
use crate::serve::{answered, exited, failed, replied, replied_os, returning};
use crate::server::lemma_request_keeps_registers;
use crate::thread::PROCESS_ID;
use crate::time::QPC_FREQ;
use crate::ui::EffectView;
use crate::win::client_reply;
use crate::windows::{
    begin_paint_out, brush_out, create_window_out, default_proc_out, dispatch_message_out,
    fill_rect_out, move_to_out, pen_out, pixel_out, rectangle_out, register_out, select_out,
    stock_out, text_color_out, text_out_out,
};

verus! {

/// `SetLastError`.
pub open spec fn set_error_out(v: OsView, c: CpuView, m: MemView) -> OsOut {
    match arg_at(v.wide(), c, m, 0) {
        Err(f) => failed(v, c, m, f),
        Ok(e) => answered(v.failed(e as u32), c, m, 0),
    }
}

/// A call on the mapped regions.
pub open spec fn mapped_out(v: OsView, c: CpuView, o: NtVmOut) -> OsOut {
    replied(OsView { vm: o.vm, last_error: o.error, ..v }, c, o.reply)
}

/// What a service that has no effect answers with.
pub open spec fn fixed_answer(v: OsView, api: Api) -> Option<u64> {
    match api {
        Api::GetCommandLineA => Some(v.cfg.cmdline_ptr_a),
        Api::GetCommandLineW => Some(v.cfg.cmdline_ptr_w),
        Api::GetProcessHeap => Some(HANDLE_PROCESS_HEAP),
        Api::GetLastError => Some(v.last_error as u64),
        Api::GetCurrentProcessId => Some(PROCESS_ID),
        Api::GetCurrentThreadId => Some(v.sched.current_tid as u64),
        Api::GetCurrentProcess => Some(u64::MAX),
        Api::GetTickCount => Some(tick_count(v.clock)),
        Api::GetACP => Some(CODE_PAGE),
        Api::GetVersion => Some(VERSION),
        Api::HeapFree
        | Api::SetConsoleCP
        | Api::SetConsoleOutputCP
        | Api::SetConsoleMode
        | Api::FreeEnvironmentStringsW
        | Api::IsDialogMessageApi => Some(TRUE),
        Api::IsDebuggerPresent => Some(FALSE),
        Api::Free | Api::CrtNoop | Api::GlobalFreeUnlock | Api::ExceptionDriver => Some(0),
        Api::WinStub { r, .. } => Some(r),
        Api::FakeHandle { .. } => Some(FAKE_HANDLE),
        Api::Unsupported { .. } => Some(0),
        _ => None,
    }
}

/// The services on the process, its modules and its time.
#[verifier::opaque]
pub open spec fn process_group(v: OsView, api: Api, c: CpuView, m: MemView, host: HostReply) -> Option<OsOut> {
    match api {
        Api::ExitProcess => Some(exit_process_out(v, c, m)),
        Api::ReturnExit => Some(exited(v, c, m, (c.reg(Reg::Rax) as u32) as i32)),
        Api::TerminateProcess => Some(exit_now_out(v, c, m, 1)),
        Api::CrtExit => Some(exit_now_out(v, c, m, 0)),
        Api::GetModuleHandleA => Some(replied_os(c, module_handle_out(v, c, m, false, host))),
        Api::GetModuleHandleW => Some(replied_os(c, module_handle_out(v, c, m, true, host))),
        Api::LoadLibraryA => Some(load_library_out(v, c, m, false, 1, host)),
        Api::FreeLibrary => Some(free_library_out(v, c, m)),
        Api::GetProcAddress => Some(get_proc_out(v, c, m)),
        Api::SetLastError => Some(set_error_out(v, c, m)),
        Api::GetEnvironmentStringsW => Some(replied_os(c, environment_out(v, m))),
        Api::GetMainArgs => Some(replied_os(c, main_args_out(v, c, m))),
        Api::GetStartupInfoA | Api::GetStartupInfoW => Some(replied(v, c, startup_reply(v.wide(), c, m))),
        Api::GetVersionEx => Some(replied(v, c, version_reply(v.wide(), c, m))),
        Api::QueryPerformanceCounter => Some(replied(v, c, told(v.wide(), c, m, v.clock.ticks, 1))),
        Api::QueryPerformanceFrequency => Some(replied(v, c, told(v.wide(), c, m, QPC_FREQ, 1))),
        Api::GetSystemTimeAsFileTime => Some(replied(v, c, told(v.wide(), c, m, v.clock.filetime, 0))),
        _ => None,
    }
}

/// The services on calls that move control.
#[verifier::opaque]
pub open spec fn driver_group(v: OsView, api: Api, c: CpuView, m: MemView, host: HostReply) -> Option<OsOut> {
    match api {
        Api::Sleep => Some(v.yielding(c, m, 0, 1)),
        Api::Initterm => Some(initterm_out(v, c, m)),
        Api::InittermDriver => Some(initterm_next_out(v, c, m)),
        Api::CallbackDriver => Some(callback_next_out(v, c, m, host)),
        Api::ThreadExit => Some(v.exiting(c, m, c.reg(Reg::Rax) as u32)),
        Api::ThreadTlsAttach => Some(v.announcing(c, m)),
        Api::ThreadStartEntry => Some(v.seating(c, m)),
        Api::WineUnixCall => Some(unix_out(v, c, m)),
        _ => None,
    }
}

/// The services on memory.
#[verifier::opaque]
pub open spec fn memory_group(v: OsView, api: Api, c: CpuView, m: MemView, host: HostReply) -> Option<OsOut> {
    match api {
        Api::HeapAlloc => Some(replied_os(c, block_out(v, c, m, 2))),
        Api::Malloc => Some(replied_os(c, block_out(v, c, m, 0))),
        Api::GlobalAlloc => Some(replied_os(c, block_out(v, c, m, 1))),
        Api::Calloc => Some(replied_os(c, array_out(v, c, m))),
        Api::HeapReAlloc => Some(replied_os(c, resize_out(v, c, m, 2, 3))),
        Api::Realloc => Some(replied_os(c, resize_out(v, c, m, 0, 1))),
        Api::GlobalLock => Some(replied(v, c, Reply { mem: m, r: arg_at(v.wide(), c, m, 0) })),
        Api::VirtualAlloc => Some(mapped_out(v, c, valloc_out(v.vm, v.last_error, v.wide(), c, m))),
        Api::VirtualFree => Some(mapped_out(v, c, vfree_out(v.vm, v.last_error, v.wide(), c, m))),
        Api::Memcpy => Some(replied(v, c, move_reply(v.wide(), c, m))),
        Api::Memset => Some(replied(v, c, fill_reply(v.wide(), c, m))),
        _ => None,
    }
}

/// The services on strings.
#[verifier::opaque]
pub open spec fn text_group(v: OsView, api: Api, c: CpuView, m: MemView, host: HostReply) -> Option<OsOut> {
    match api {
        Api::Memcmp => Some(replied(v, c, block_order_reply(v.wide(), c, m))),
        Api::Strlen => Some(replied(v, c, byte_len_reply(v.wide(), c, m, false))),
        Api::LstrlenA => Some(replied(v, c, byte_len_reply(v.wide(), c, m, true))),
        Api::LstrlenW => Some(replied(v, c, wide_len_reply(v.wide(), c, m))),
        Api::CharNextA => Some(replied(v, c, next_reply(v.wide(), c, m, false))),
        Api::CharNextW => Some(replied(v, c, next_reply(v.wide(), c, m, true))),
        Api::CharPrevW => Some(replied(v, c, prev_reply(v.wide(), c, m))),
        Api::LstrcpyW => Some(replied(v, c, copy_reply(v.wide(), c, m, false))),
        Api::LstrcatW => Some(replied(v, c, copy_reply(v.wide(), c, m, true))),
        Api::LstrcpynW => Some(replied(v, c, bounded_reply(v.wide(), c, m))),
        Api::LstrcmpW => Some(replied(v, c, order_reply(v.wide(), c, m, false))),
        Api::LstrcmpiW => Some(replied(v, c, order_reply(v.wide(), c, m, true))),
        _ => None,
    }
}

/// The services on the console.
#[verifier::opaque]
pub open spec fn console_group(v: OsView, api: Api, c: CpuView, m: MemView, host: HostReply) -> Option<OsOut> {
    match api {
        Api::GetStdHandle => Some(replied(v, c, std_handle_reply(v.wide(), c, m))),
        Api::GetConsoleMode => Some(replied(v, c, console_mode_reply(v.wide(), c, m))),
        Api::WriteFile => Some(replied_os(c, write_out(v, c, m, true, host))),
        Api::WriteConsoleA => Some(replied_os(c, write_out(v, c, m, false, host))),
        Api::WriteConsoleW => Some(replied_os(c, write_wide_out(v, c, m))),
        Api::Fputs => Some(replied_os(c, puts_out(v, c, m, false))),
        Api::Puts => Some(replied_os(c, puts_out(v, c, m, true))),
        Api::Fputc => Some(replied_os(c, fputc_out(v, c, m))),
        Api::Fwrite => Some(replied_os(c, fwrite_out(v, c, m))),
        _ => None,
    }
}

/// The services on files.
#[verifier::opaque]
pub open spec fn files_group(v: OsView, api: Api, c: CpuView, m: MemView, host: HostReply) -> Option<OsOut> {
    match api {
        Api::CreateFileW => Some(replied_os(c, create_file_out(v, c, m, host))),
        Api::ReadFileApi => Some(replied(v, c, read_reply(v, c, m, host))),
        Api::CloseHandle => Some(replied_os(c, close_handle_out(v, c, m))),
        Api::CreateDirectoryW | Api::DeleteFileW => Some(replied(v, c, path_reply(v, c, m, host))),
        Api::GetFileAttributesW => Some(replied(v, c, attributes_reply(v, c, m, host))),
        Api::GetFileSizeApi => Some(replied(v, c, size_reply(v, c, m, host))),
        Api::SetFilePointerApi => Some(replied(v, c, seek_reply(v, c, m, host))),
        Api::GetTempFileNameW => Some(replied_os(c, temp_file_out(v, c, m))),
        Api::GetTempPathW => Some(replied(v, c, told_text(v.wide(), c, m, 0, true, "C:\\Temp\\"@))),
        Api::GetSystemDirectoryW => Some(replied(
            v,
            c,
            told_text(v.wide(), c, m, 0, false, "C:\\Windows\\System32"@),
        )),
        Api::GetWindowsDirectoryW => Some(replied(v, c, told_text(v.wide(), c, m, 0, false, "C:\\Windows"@))),
        Api::GetModuleFileNameW => Some(replied(v, c, told_text(v.wide(), c, m, 1, false, v.cfg.module_path_w@))),
        _ => None,
    }
}

/// The services on dialogs and messages.
#[verifier::opaque]
pub open spec fn dialog_group(v: OsView, api: Api, c: CpuView, m: MemView, host: HostReply) -> Option<OsOut> {
    match api {
        Api::CreateDialogParam { modal } => Some(create_dialog_out(v, c, m, modal)),
        Api::SetDlgItemTextW => Some(replied_os(c, set_item_out(v, c, m))),
        Api::GetDlgItemTextW => Some(replied(v, c, get_item_reply(v, c, m))),
        Api::GetDlgItemApi => Some(replied(v, c, item_reply(v.wide(), c, m))),
        Api::SendMessageApi => Some(replied_os(c, send_out(v, c, m))),
        Api::SetWindowTextApi => Some(replied_os(c, set_window_text_out(v, c, m))),
        Api::GetWindowTextApi => Some(replied(v, c, get_window_text_reply(v, c, m))),
        Api::GetMessageApi => Some(get_message_out(v, c, m, host)),
        Api::PeekMessageApi => Some(peek_message_out(v, c, m, host)),
        Api::CoCreateInstanceApi => Some(replied(v, c, no_object_reply(v.wide(), c, m))),
        Api::DestroyWindowApi => Some(answered(OsView { ui: v.ui.closed(), ..v }, c, m, TRUE)),
        Api::PostQuitMessageApi => Some(replied_os(c, quit_out(v, c, m))),
        Api::EndDialogApi => Some(replied_os(c, end_dialog_out(v, c, m))),
        _ => None,
    }
}

/// The services on windows.
#[verifier::opaque]
pub open spec fn window_group(v: OsView, api: Api, c: CpuView, m: MemView, host: HostReply) -> Option<OsOut> {
    match api {
        Api::RegisterClassApi { ex } => Some(replied_os(c, register_out(v, c, m, ex))),
        Api::CreateWindowExApi => Some(create_window_out(v, c, m)),
        Api::DefWindowProcApi => Some(replied_os(c, default_proc_out(v, c, m))),
        Api::DispatchMessageApi => Some(dispatch_message_out(v, c, m)),
        Api::BeginPaintApi => Some(replied_os(c, begin_paint_out(v, c, m))),
        Api::EndPaintApi => Some(answered(OsView { ui: v.ui.with(EffectView::Present), ..v }, c, m, TRUE)),
        Api::GetClientRectApi => Some(replied(v, c, client_reply(v.gdi, v.wide(), c, m))),
        _ => None,
    }
}

/// The services on drawing.
#[verifier::opaque]
pub open spec fn drawing_group(v: OsView, api: Api, c: CpuView, m: MemView, host: HostReply) -> Option<OsOut> {
    match api {
        Api::FillRectApi => Some(replied_os(c, fill_rect_out(v, c, m))),
        Api::RectangleApi => Some(replied_os(c, rectangle_out(v, c, m))),
        Api::TextOutApi => Some(replied_os(c, text_out_out(v, c, m))),
        Api::SetTextColorApi => Some(replied_os(c, text_color_out(v, c, m))),
        Api::CreateSolidBrushApi => Some(replied_os(c, brush_out(v, c, m))),
        Api::CreatePenApi => Some(replied_os(c, pen_out(v, c, m))),
        Api::GetStockObjectApi => Some(replied_os(c, stock_out(v, c, m))),
        Api::SelectObjectApi => Some(replied_os(c, select_out(v, c, m))),
        Api::MoveToExApi => Some(replied_os(c, move_to_out(v, c, m, false))),
        Api::LineToApi => Some(replied_os(c, move_to_out(v, c, m, true))),
        Api::SetPixelApi => Some(replied_os(c, pixel_out(v, c, m))),
        _ => None,
    }
}

/// Where a call goes on after a group of services that did not serve it.
pub open spec fn or_else(first: Option<OsOut>, other: OsOut) -> OsOut {
    match first {
        Some(o) => o,
        None => other,
    }
}

/// The services that are bound by name.
#[verifier::opaque]
pub open spec fn bound_group(v: OsView, api: Api, c: CpuView, m: MemView, host: HostReply) -> Option<OsOut> {
    match api {
        Api::Bound(n) => Some(bound_out(v, n, c, m, host)),
        _ => None,
    }
}

/// What serving a call leads to. A symbol without a service is answered with 0.
#[verifier::opaque]
pub open spec fn dispatch_out(v: OsView, api: Api, c: CpuView, m: MemView, host: HostReply) -> OsOut {
    match fixed_answer(v, api) {
        Some(x) => answered(v, c, m, x),
        None => or_else(
            process_group(v, api, c, m, host),
            or_else(
                driver_group(v, api, c, m, host),
                or_else(
                    memory_group(v, api, c, m, host),
                    or_else(
                        text_group(v, api, c, m, host),
                        or_else(
                            console_group(v, api, c, m, host),
                            or_else(
                                files_group(v, api, c, m, host),
                                or_else(
                                    dialog_group(v, api, c, m, host),
                                    or_else(
                                        window_group(v, api, c, m, host),
                                        or_else(
                                            drawing_group(v, api, c, m, host),
                                            or_else(
                                                bound_group(v, api, c, m, host),
                                                answered(v, c, m, 0),
                                            ),
                                        ),
                                    ),
                                ),
                            ),
                        ),
                    ),
                ),
            ),
        ),
    }
}

/// Whether a service can be called: the drivers only where something is in
/// progress.
pub open spec fn ready(v: OsView, api: Api) -> bool {
    &&& api is CallbackDriver ==> v.cbs.len() > 0
    &&& api is InittermDriver ==> v.inits.len() > 0
}

/// What a group of services made of a call.
pub open spec fn made(v: OsView, c: CpuView, m: MemView, r: Option<Result<Outcome, Fault>>) -> Option<
    OsOut,
> {
    match r {
        Some(x) => Some(OsOut { os: v, cpu: c, mem: m, r: x }),
        None => None,
    }
}

impl WinOs {
    /// The service of thunk `i`.
    pub open spec fn api_at(self, i: usize) -> Api {
        self.thunks.apis@[i as int]
    }

    /// Whether the service of thunk `i` can be called.
    pub fn is_ready(&self, i: usize) -> (r: bool)
        requires
            i < self.thunks.apis.len(),
        ensures
            r == ready(self@, self.api_at(i)),
    {
        match &self.thunks.apis[i] {
            Api::CallbackDriver => self.cbs.stack.len() > 0,
            Api::InittermDriver => self.inits.stack.len() > 0,
            _ => true,
        }
    }

    /// Serve `SetLastError`.
    fn store_last_error(&mut self, cpu: &CpuState, mem: &VirtualMemory) -> (r: Result<u64, Fault>)
        requires
            old(self).wf(),
        ensures
            final(self).wf(),
            final(self).thunks == old(self).thunks,
            replied_os(cpu@, crate::os::OsReply { os: final(self)@, mem: mem@, r })
                == set_error_out(old(self)@, cpu@, mem@),
    {
        match arg(self.cfg.is_64bit, cpu, mem, 0) {
            Ok(e) => {
                self.last_error = e as u32;
                Ok(0)
            },
            Err(f) => Err(f),
        }
    }

    /// What a service that has no effect answers with.
    fn fixed(&self, i: usize) -> (r: Option<u64>)
        requires
            i < self.thunks.apis.len(),
        ensures
            r == fixed_answer(self@, self.api_at(i)),
    {
        match &self.thunks.apis[i] {
            Api::GetCommandLineA => Some(self.cfg.cmdline_ptr_a),
            Api::GetCommandLineW => Some(self.cfg.cmdline_ptr_w),
            Api::GetProcessHeap => Some(HANDLE_PROCESS_HEAP),
            Api::GetLastError => Some(self.last_error as u64),
            Api::GetCurrentProcessId => Some(PROCESS_ID),
            Api::GetCurrentThreadId => Some(self.sched.current_tid as u64),
            Api::GetCurrentProcess => Some(u64::MAX),
            Api::GetTickCount => Some(get_tick_count(&self.clock)),
            Api::GetACP => Some(CODE_PAGE),
            Api::GetVersion => Some(VERSION),
            Api::HeapFree
            | Api::SetConsoleCP
            | Api::SetConsoleOutputCP
            | Api::SetConsoleMode
            | Api::FreeEnvironmentStringsW
            | Api::IsDialogMessageApi => Some(TRUE),
            Api::IsDebuggerPresent => Some(FALSE),
            Api::Free | Api::CrtNoop | Api::GlobalFreeUnlock | Api::ExceptionDriver => Some(0),
            Api::WinStub { r, .. } => Some(*r),
            Api::FakeHandle { .. } => Some(FAKE_HANDLE),
            Api::Unsupported { .. } => Some(0),
            _ => None,
        }
    }

    /// Serve the calls on the process, its modules and its time.
    fn try_process(
        &mut self,
        i: usize,
        cpu: &mut CpuState,
        mem: &mut VirtualMemory,
        host: &HostReply,
    ) -> (r: Option<Result<Outcome, Fault>>)
        requires
            old(self).wf(),
            old(self).has_room(),
            i < old(self).thunks.apis.len(),
            ready(old(self)@, old(self).api_at(i)),
        ensures
            final(self).wf(),
            final(self).thunks.extends(old(self).thunks),
            made(final(self)@, final(cpu)@, final(mem)@, r) == process_group(
                old(self)@,
                old(self).api_at(i),
                old(cpu)@,
                old(mem)@,
                *host,
            ),
            r is None ==> *final(self) == *old(self) && final(cpu)@ == old(cpu)@ && final(mem)@
                == old(mem)@,
    {
        reveal(process_group);
        match &self.thunks.apis[i] {
            Api::ExitProcess => Some(self.exit_process(cpu, mem)),
            Api::ReturnExit => Some(Ok(Outcome::Exit((cpu.reg(Reg::Rax) as u32) as i32))),
            Api::TerminateProcess => Some(self.exit_now(cpu, mem, 1)),
            Api::CrtExit => Some(self.exit_now(cpu, mem, 0)),
            Api::GetModuleHandleA => Some(returning(self.get_module_handle(cpu, mem, false, host))),
            Api::GetModuleHandleW => Some(returning(self.get_module_handle(cpu, mem, true, host))),
            Api::LoadLibraryA => Some(self.load_library(cpu, mem, false, 1, host)),
            Api::FreeLibrary => Some(self.release_library(cpu, mem)),
            Api::GetProcAddress => Some(self.find_procedure(cpu, mem)),
            Api::SetLastError => Some(returning(self.store_last_error(cpu, mem))),
            Api::GetEnvironmentStringsW => Some(returning(self.get_environment_strings(mem))),
            Api::GetMainArgs => Some(returning(self.get_main_args(cpu, mem))),
            Api::GetStartupInfoA | Api::GetStartupInfoW => Some(returning(get_startup_info(self.cfg.is_64bit, cpu, mem))),
            Api::GetVersionEx => Some(returning(get_version_ex(self.cfg.is_64bit, cpu, mem))),
            Api::QueryPerformanceCounter => Some(returning(query_performance_counter(&self.clock, self.cfg.is_64bit, cpu, mem))),
            Api::QueryPerformanceFrequency => Some(returning(query_performance_frequency(self.cfg.is_64bit, cpu, mem))),
            Api::GetSystemTimeAsFileTime => Some(returning(get_system_time_as_filetime(&self.clock, self.cfg.is_64bit, cpu, mem))),
            _ => None,
        }
    }

    /// Serve the calls on calls that move control.
    fn try_driver(
        &mut self,
        i: usize,
        cpu: &mut CpuState,
        mem: &mut VirtualMemory,
        host: &HostReply,
    ) -> (r: Option<Result<Outcome, Fault>>)
        requires
            old(self).wf(),
            old(self).has_room(),
            i < old(self).thunks.apis.len(),
            ready(old(self)@, old(self).api_at(i)),
        ensures
            final(self).wf(),
            final(self).thunks == old(self).thunks,
            made(final(self)@, final(cpu)@, final(mem)@, r) == driver_group(
                old(self)@,
                old(self).api_at(i),
                old(cpu)@,
                old(mem)@,
                *host,
            ),
            r is None ==> *final(self) == *old(self) && final(cpu)@ == old(cpu)@ && final(mem)@
                == old(mem)@,
    {
        reveal(driver_group);
        match &self.thunks.apis[i] {
            Api::Sleep => Some(self.sleep(cpu, mem, 1)),
            Api::Initterm => Some(self.run_initializers(cpu, mem)),
            Api::InittermDriver => Some(self.next_initializer(cpu, mem)),
            Api::CallbackDriver => Some(self.next_callback(cpu, mem, host)),
            Api::ThreadExit => Some(self.thread_start_returned(cpu, mem)),
            Api::ThreadTlsAttach => Some(self.thread_tls_attach(cpu, mem)),
            Api::ThreadStartEntry => Some(self.thread_start_entry(cpu, mem)),
            Api::WineUnixCall => Some(self.serve_unix_call(cpu, mem)),
            _ => None,
        }
    }

    /// Serve the calls on memory.
    fn try_memory(
        &mut self,
        i: usize,
        cpu: &mut CpuState,
        mem: &mut VirtualMemory,
        host: &HostReply,
    ) -> (r: Option<Result<Outcome, Fault>>)
        requires
            old(self).wf(),
            old(self).has_room(),
            i < old(self).thunks.apis.len(),
            ready(old(self)@, old(self).api_at(i)),
        ensures
            final(self).wf(),
            final(self).thunks == old(self).thunks,
            made(final(self)@, final(cpu)@, final(mem)@, r) == memory_group(
                old(self)@,
                old(self).api_at(i),
                old(cpu)@,
                old(mem)@,
                *host,
            ),
            r is None ==> *final(self) == *old(self) && final(cpu)@ == old(cpu)@ && final(mem)@
                == old(mem)@,
    {
        reveal(memory_group);
        match &self.thunks.apis[i] {
            Api::HeapAlloc => Some(returning(self.give_block(cpu, mem, 2))),
            Api::Malloc => Some(returning(self.give_block(cpu, mem, 0))),
            Api::GlobalAlloc => Some(returning(self.give_block(cpu, mem, 1))),
            Api::Calloc => Some(returning(self.give_array(cpu, mem))),
            Api::HeapReAlloc => Some(returning(self.resize_block(cpu, mem, 2, 3))),
            Api::Realloc => Some(returning(self.resize_block(cpu, mem, 0, 1))),
            Api::GlobalLock => Some(returning(arg(self.cfg.is_64bit, cpu, mem, 0))),
            Api::VirtualAlloc => Some(returning(
                self.vm.virtual_alloc(&mut self.last_error, self.cfg.is_64bit, cpu, mem),
            )),
            Api::VirtualFree => Some(returning(
                self.vm.virtual_free(&mut self.last_error, self.cfg.is_64bit, cpu, mem),
            )),
            Api::Memcpy => Some(returning(move_memory(self.cfg.is_64bit, cpu, mem))),
            Api::Memset => Some(returning(fill_memory(self.cfg.is_64bit, cpu, mem))),
            _ => None,
        }
    }

    /// Serve the calls on strings.
    fn try_text(
        &mut self,
        i: usize,
        cpu: &mut CpuState,
        mem: &mut VirtualMemory,
        host: &HostReply,
    ) -> (r: Option<Result<Outcome, Fault>>)
        requires
            old(self).wf(),
            old(self).has_room(),
            i < old(self).thunks.apis.len(),
            ready(old(self)@, old(self).api_at(i)),
        ensures
            final(self).wf(),
            final(self).thunks == old(self).thunks,
            made(final(self)@, final(cpu)@, final(mem)@, r) == text_group(
                old(self)@,
                old(self).api_at(i),
                old(cpu)@,
                old(mem)@,
                *host,
            ),
            r is None ==> *final(self) == *old(self) && final(cpu)@ == old(cpu)@ && final(mem)@
                == old(mem)@,
    {
        reveal(text_group);
        match &self.thunks.apis[i] {
            Api::Memcmp => Some(returning(order_blocks(self.cfg.is_64bit, cpu, mem))),
            Api::Strlen => Some(returning(byte_length(self.cfg.is_64bit, cpu, mem, false))),
            Api::LstrlenA => Some(returning(byte_length(self.cfg.is_64bit, cpu, mem, true))),
            Api::LstrlenW => Some(returning(wide_length(self.cfg.is_64bit, cpu, mem))),
            Api::CharNextA => Some(returning(char_next(self.cfg.is_64bit, cpu, mem, false))),
            Api::CharNextW => Some(returning(char_next(self.cfg.is_64bit, cpu, mem, true))),
            Api::CharPrevW => Some(returning(char_prev(self.cfg.is_64bit, cpu, mem))),
            Api::LstrcpyW => Some(returning(copy_string(self.cfg.is_64bit, cpu, mem, false))),
            Api::LstrcatW => Some(returning(copy_string(self.cfg.is_64bit, cpu, mem, true))),
            Api::LstrcpynW => Some(returning(copy_bounded(self.cfg.is_64bit, cpu, mem))),
            Api::LstrcmpW => Some(returning(order_strings(self.cfg.is_64bit, cpu, mem, false))),
            Api::LstrcmpiW => Some(returning(order_strings(self.cfg.is_64bit, cpu, mem, true))),
            _ => None,
        }
    }

    /// Serve the calls on the console.
    fn try_console(
        &mut self,
        i: usize,
        cpu: &mut CpuState,
        mem: &mut VirtualMemory,
        host: &HostReply,
    ) -> (r: Option<Result<Outcome, Fault>>)
        requires
            old(self).wf(),
            old(self).has_room(),
            i < old(self).thunks.apis.len(),
            ready(old(self)@, old(self).api_at(i)),
        ensures
            final(self).wf(),
            final(self).thunks == old(self).thunks,
            made(final(self)@, final(cpu)@, final(mem)@, r) == console_group(
                old(self)@,
                old(self).api_at(i),
                old(cpu)@,
                old(mem)@,
                *host,
            ),
            r is None ==> *final(self) == *old(self) && final(cpu)@ == old(cpu)@ && final(mem)@
                == old(mem)@,
    {
        reveal(console_group);
        match &self.thunks.apis[i] {
            Api::GetStdHandle => Some(returning(get_std_handle(self.cfg.is_64bit, cpu, mem))),
            Api::GetConsoleMode => Some(returning(get_console_mode(self.cfg.is_64bit, cpu, mem))),
            Api::WriteFile => Some(returning(self.write_bytes(cpu, mem, true, host))),
            Api::WriteConsoleA => Some(returning(self.write_bytes(cpu, mem, false, host))),
            Api::WriteConsoleW => Some(returning(self.write_units(cpu, mem))),
            Api::Fputs => Some(returning(self.put_string(cpu, mem, false))),
            Api::Puts => Some(returning(self.put_string(cpu, mem, true))),
            Api::Fputc => Some(returning(self.put_byte(cpu, mem))),
            Api::Fwrite => Some(returning(self.put_items(cpu, mem))),
            _ => None,
        }
    }

    /// Serve the calls on files.
    fn try_files(
        &mut self,
        i: usize,
        cpu: &mut CpuState,
        mem: &mut VirtualMemory,
        host: &HostReply,
    ) -> (r: Option<Result<Outcome, Fault>>)
        requires
            old(self).wf(),
            old(self).has_room(),
            i < old(self).thunks.apis.len(),
            ready(old(self)@, old(self).api_at(i)),
        ensures
            final(self).wf(),
            final(self).thunks == old(self).thunks,
            made(final(self)@, final(cpu)@, final(mem)@, r) == files_group(
                old(self)@,
                old(self).api_at(i),
                old(cpu)@,
                old(mem)@,
                *host,
            ),
            r is None ==> *final(self) == *old(self) && final(cpu)@ == old(cpu)@ && final(mem)@
                == old(mem)@,
    {
        reveal(files_group);
        match &self.thunks.apis[i] {
            Api::CreateFileW => Some(returning(self.create_file(cpu, mem, host))),
            Api::ReadFileApi => Some(returning(self.read_file(cpu, mem, host))),
            Api::CloseHandle => Some(returning(self.drop_handle(cpu, mem))),
            Api::CreateDirectoryW | Api::DeleteFileW => Some(returning(self.path_done(cpu, mem, host))),
            Api::GetFileAttributesW => Some(returning(self.get_file_attributes(cpu, mem, host))),
            Api::GetFileSizeApi => Some(returning(self.get_file_size(cpu, mem, host))),
            Api::SetFilePointerApi => Some(returning(self.set_file_pointer(cpu, mem, host))),
            Api::GetTempFileNameW => Some(returning(self.get_temp_file_name(cpu, mem))),
            Api::GetTempPathW => Some(returning(tell_text(self.cfg.is_64bit, cpu, mem, 0, true, "C:\\Temp\\"))),
            Api::GetSystemDirectoryW => Some(returning(
                tell_text(self.cfg.is_64bit, cpu, mem, 0, false, "C:\\Windows\\System32"),
            )),
            Api::GetWindowsDirectoryW => Some(returning(tell_text(self.cfg.is_64bit, cpu, mem, 0, false, "C:\\Windows"))),
            Api::GetModuleFileNameW => Some(returning(
                tell_text(self.cfg.is_64bit, cpu, mem, 1, false, self.cfg.module_path_w.as_str()),
            )),
            _ => None,
        }
    }

    /// Serve the calls on dialogs and messages.
    fn try_dialog(
        &mut self,
        i: usize,
        cpu: &mut CpuState,
        mem: &mut VirtualMemory,
        host: &HostReply,
    ) -> (r: Option<Result<Outcome, Fault>>)
        requires
            old(self).wf(),
            old(self).has_room(),
            i < old(self).thunks.apis.len(),
            ready(old(self)@, old(self).api_at(i)),
        ensures
            final(self).wf(),
            final(self).thunks == old(self).thunks,
            made(final(self)@, final(cpu)@, final(mem)@, r) == dialog_group(
                old(self)@,
                old(self).api_at(i),
                old(cpu)@,
                old(mem)@,
                *host,
            ),
            r is None ==> *final(self) == *old(self) && final(cpu)@ == old(cpu)@ && final(mem)@
                == old(mem)@,
    {
        reveal(dialog_group);
        match &self.thunks.apis[i] {
            Api::CreateDialogParam { modal } => {
                let modal: bool = *modal;
                Some(self.create_dialog(cpu, mem, modal))
            },
            Api::SetDlgItemTextW => Some(returning(self.set_dialog_text(cpu, mem))),
            Api::GetDlgItemTextW => Some(returning(self.get_dialog_text(cpu, mem))),
            Api::GetDlgItemApi => Some(returning(get_dialog_item(self.cfg.is_64bit, cpu, mem))),
            Api::SendMessageApi => Some(returning(self.send_message(cpu, mem))),
            Api::SetWindowTextApi => Some(returning(self.set_window_text(cpu, mem))),
            Api::GetWindowTextApi => Some(returning(self.get_window_text(cpu, mem))),
            Api::GetMessageApi => Some(self.get_message(cpu, mem, host)),
            Api::PeekMessageApi => Some(self.peek_message(cpu, mem, host)),
            Api::CoCreateInstanceApi => Some(returning(no_object(self.cfg.is_64bit, cpu, mem))),
            Api::DestroyWindowApi => Some(Ok(Outcome::Return(self.destroy_window()))),
            Api::PostQuitMessageApi => Some(returning(self.post_quit(cpu, mem))),
            Api::EndDialogApi => Some(returning(self.end_dialog(cpu, mem))),
            _ => None,
        }
    }

    /// Serve the calls on windows.
    fn try_window(
        &mut self,
        i: usize,
        cpu: &mut CpuState,
        mem: &mut VirtualMemory,
        host: &HostReply,
    ) -> (r: Option<Result<Outcome, Fault>>)
        requires
            old(self).wf(),
            old(self).has_room(),
            i < old(self).thunks.apis.len(),
            ready(old(self)@, old(self).api_at(i)),
        ensures
            final(self).wf(),
            final(self).thunks == old(self).thunks,
            made(final(self)@, final(cpu)@, final(mem)@, r) == window_group(
                old(self)@,
                old(self).api_at(i),
                old(cpu)@,
                old(mem)@,
                *host,
            ),
            r is None ==> *final(self) == *old(self) && final(cpu)@ == old(cpu)@ && final(mem)@
                == old(mem)@,
    {
        reveal(window_group);
        match &self.thunks.apis[i] {
            Api::RegisterClassApi { ex } => {
                let ex: bool = *ex;
                Some(returning(self.register_class(cpu, mem, ex)))
            },
            Api::CreateWindowExApi => Some(self.create_window(cpu, mem)),
            Api::DefWindowProcApi => Some(returning(self.default_window_proc(cpu, mem))),
            Api::DispatchMessageApi => Some(self.dispatch_message(cpu, mem)),
            Api::BeginPaintApi => Some(returning(self.start_paint(cpu, mem))),
            Api::EndPaintApi => Some(Ok(Outcome::Return(self.end_paint()))),
            Api::GetClientRectApi => Some(returning(self.gdi.get_client_rect_win(self.cfg.is_64bit, cpu, mem))),
            _ => None,
        }
    }

    /// Serve the calls on drawing.
    fn try_drawing(
        &mut self,
        i: usize,
        cpu: &mut CpuState,
        mem: &mut VirtualMemory,
        host: &HostReply,
    ) -> (r: Option<Result<Outcome, Fault>>)
        requires
            old(self).wf(),
            old(self).has_room(),
            i < old(self).thunks.apis.len(),
            ready(old(self)@, old(self).api_at(i)),
        ensures
            final(self).wf(),
            final(self).thunks == old(self).thunks,
            made(final(self)@, final(cpu)@, final(mem)@, r) == drawing_group(
                old(self)@,
                old(self).api_at(i),
                old(cpu)@,
                old(mem)@,
                *host,
            ),
            r is None ==> *final(self) == *old(self) && final(cpu)@ == old(cpu)@ && final(mem)@
                == old(mem)@,
    {
        reveal(drawing_group);
        match &self.thunks.apis[i] {
            Api::FillRectApi => Some(returning(self.fill_rect(cpu, mem))),
            Api::RectangleApi => Some(returning(self.rectangle(cpu, mem))),
            Api::TextOutApi => Some(returning(self.text_out(cpu, mem))),
            Api::SetTextColorApi => Some(returning(self.change_text_color(cpu, mem))),
            Api::CreateSolidBrushApi => Some(returning(self.new_brush(cpu, mem))),
            Api::CreatePenApi => Some(returning(self.new_pen(cpu, mem))),
            Api::GetStockObjectApi => Some(returning(self.stock(cpu, mem))),
            Api::SelectObjectApi => Some(returning(self.select(cpu, mem))),
            Api::MoveToExApi => Some(returning(self.move_to(cpu, mem, false))),
            Api::LineToApi => Some(returning(self.move_to(cpu, mem, true))),
            Api::SetPixelApi => Some(returning(self.set_pixel(cpu, mem))),
            _ => None,
        }
    }

    /// Serve the calls that are bound by name.
    fn try_bound(
        &mut self,
        i: usize,
        cpu: &mut CpuState,
        mem: &mut VirtualMemory,
        host: &HostReply,
    ) -> (r: Option<Result<Outcome, Fault>>)
        requires
            old(self).wf(),
            old(self).has_room(),
            i < old(self).thunks.apis.len(),
            ready(old(self)@, old(self).api_at(i)),
        ensures
            final(self).wf(),
            final(self).thunks == old(self).thunks,
            made(final(self)@, final(cpu)@, final(mem)@, r) == bound_group(
                old(self)@,
                old(self).api_at(i),
                old(cpu)@,
                old(mem)@,
                *host,
            ),
            r is None ==> *final(self) == *old(self) && final(cpu)@ == old(cpu)@ && final(mem)@
                == old(mem)@,
    {
        reveal(bound_group);
        match &self.thunks.apis[i] {
            Api::Bound(n) => {
                let n: Named = *n;
                Some(self.serve_bound(n, cpu, mem, host))
            },
            _ => None,
        }
    }

    /// Serve the call of thunk `i`.
    pub fn dispatch(
        &mut self,
        i: usize,
        cpu: &mut CpuState,
        mem: &mut VirtualMemory,
        host: &HostReply,
    ) -> (r: Result<Outcome, Fault>)
        requires
            old(self).wf(),
            old(self).has_room(),
            i < old(self).thunks.apis.len(),
            ready(old(self)@, old(self).api_at(i)),
        ensures
            final(self).wf(),
            final(self).thunks.extends(old(self).thunks),
            (OsOut { os: final(self)@, cpu: final(cpu)@, mem: final(mem)@, r }) == dispatch_out(
                old(self)@,
                old(self).api_at(i),
                old(cpu)@,
                old(mem)@,
                *host,
            ),
    {
        reveal(dispatch_out);
        if let Some(x) = self.fixed(i) {
            return Ok(Outcome::Return(x));
        }
        if let Some(r) = self.try_process(i, cpu, mem, host) {
            return r;
        }
        if let Some(r) = self.try_driver(i, cpu, mem, host) {
            return r;
        }
        if let Some(r) = self.try_memory(i, cpu, mem, host) {
            return r;
        }
        if let Some(r) = self.try_text(i, cpu, mem, host) {
            return r;
        }
        if let Some(r) = self.try_console(i, cpu, mem, host) {
            return r;
        }
        if let Some(r) = self.try_files(i, cpu, mem, host) {
            return r;
        }
        if let Some(r) = self.try_dialog(i, cpu, mem, host) {
            return r;
        }
        if let Some(r) = self.try_window(i, cpu, mem, host) {
            return r;
        }
        if let Some(r) = self.try_drawing(i, cpu, mem, host) {
            return r;
        }
        if let Some(r) = self.try_bound(i, cpu, mem, host) {
            return r;
        }
        Ok(Outcome::Return(0))
    }
}

// ---- what the host is asked for ---------------------------------------------

/// What a callback that returned asks of the host.
pub open spec fn callback_asks(v: OsView) -> RequestView {
    if crate::cb::wants_event(v.cbs, v.dialog) {
        RequestView::Event { wait: true }
    } else {
        RequestView::Nothing
    }
}

/// What a call on the library that argument 0 names asks of the host.
pub open spec fn library_asks(v: OsView, c: CpuView, m: MemView, wide: bool, load: bool) -> RequestView {
    match arg_at(v.wide(), c, m, 0) {
        Err(_) => RequestView::Nothing,
        Ok(p) => if p == 0 {
            RequestView::Nothing
        } else {
            match guest_text(m, p, wide) {
                Err(_) => RequestView::Nothing,
                Ok(name) => RequestView::Library { name, load },
            }
        },
    }
}

/// What a call asks of the host before it can be served.
#[verifier::opaque]
pub open spec fn dispatch_asks(v: OsView, api: Api, c: CpuView, m: MemView) -> RequestView {
    match api {
        Api::WriteFile => write_asks(v, c, m),
        Api::CreateFileW => create_asks(v, c, m),
        Api::ReadFileApi => read_asks(v, c, m),
        Api::CloseHandle => close_asks(v, c, m),
        Api::CreateDirectoryW => directory_asks(v, c, m),
        Api::DeleteFileW => delete_asks(v, c, m),
        Api::GetFileAttributesW => attributes_asks(v, c, m),
        Api::GetFileSizeApi => size_asks(v, c, m),
        Api::SetFilePointerApi => seek_asks(v, c, m),
        Api::GetTempFileNameW => temp_file_asks(v, c, m),
        Api::GetMessageApi => get_message_asks(v),
        Api::PeekMessageApi => peek_message_asks(v),
        Api::CallbackDriver => callback_asks(v),
        Api::LoadLibraryA => library_asks(v, c, m, false, true),
        Api::GetModuleHandleA => library_asks(v, c, m, false, false),
        Api::GetModuleHandleW => library_asks(v, c, m, true, false),
        Api::Bound(n) => bound_asks(v, n, c, m),
        _ => RequestView::Nothing,
    }
}

impl WinOs {
    /// What a callback that returned asks of the host.
    fn callback_request(&self) -> (r: HostRequest)
        ensures
            r@ == callback_asks(self@),
    {
        if self.cbs.wants_event(&self.dialog) {
            HostRequest::Event { wait: true }
        } else {
            HostRequest::Nothing
        }
    }

    /// What a call on a library asks of the host.
    pub fn library_request(&self, cpu: &CpuState, mem: &VirtualMemory, wide: bool, load: bool) -> (r:
        HostRequest)
        ensures
            r@ == library_asks(self@, cpu@, mem@, wide, load),
    {
        let p: u64 = match arg(self.cfg.is_64bit, cpu, mem, 0) {
            Ok(p) => p,
            Err(_) => {
                return HostRequest::Nothing;
            },
        };
        if p == 0 {
            return HostRequest::Nothing;
        }
        match read_text(mem, p, wide) {
            Ok(name) => HostRequest::Library { name, load },
            Err(_) => HostRequest::Nothing,
        }
    }

    /// What the call of thunk `i` asks of the host before it can be served.
    pub fn request(&self, i: usize, cpu: &CpuState, mem: &VirtualMemory) -> (r: HostRequest)
        requires
            self.wf(),
            self.has_room(),
            i < self.thunks.apis.len(),
        ensures
            r@ == dispatch_asks(self@, self.api_at(i), cpu@, mem@),
    {
        reveal(dispatch_asks);
        match &self.thunks.apis[i] {
            Api::WriteFile => self.write_request(cpu, mem),
            Api::CreateFileW => self.create_request(cpu, mem),
            Api::ReadFileApi => self.read_request(cpu, mem),
            Api::CloseHandle => self.close_request(cpu, mem),
            Api::CreateDirectoryW => self.directory_request(cpu, mem),
            Api::DeleteFileW => self.delete_request(cpu, mem),
            Api::GetFileAttributesW => self.attributes_request(cpu, mem),
            Api::GetFileSizeApi => self.size_request(cpu, mem),
            Api::SetFilePointerApi => self.seek_request(cpu, mem),
            Api::GetTempFileNameW => self.temp_file_request(cpu, mem),
            Api::GetMessageApi => self.get_message_request(),
            Api::PeekMessageApi => self.peek_message_request(),
            Api::CallbackDriver => self.callback_request(),
            Api::LoadLibraryA => self.library_request(cpu, mem, false, true),
            Api::GetModuleHandleA => self.library_request(cpu, mem, false, false),
            Api::GetModuleHandleW => self.library_request(cpu, mem, true, false),
            Api::Bound(n) => self.bound_request(*n, cpu, mem),
            _ => HostRequest::Nothing,
        }
    }
}

// ---- the run loop -----------------------------------------------------------

/// What the run loop does at an instruction.
pub enum Step {
    /// Execute it.
    Pass,
    /// Go on with another thread.
    Switched,
    /// It is the call of a thunk: do this first, then serve it.
    Serve { thunk: usize, request: HostRequest },
}

/// What intercepting an instruction leads to: the threads, the registers, and
/// which thunk is called.
pub struct Intercepted {
    pub os: OsView,
    pub cpu: CpuView,
    pub switched: bool,
    pub thunk: Option<int>,
}

/// What intercepting the instruction at `rip` leads to. A thread whose time is up
/// makes room for another one; else a call of a thunk is served.
pub open spec fn intercept_out(v: OsView, at: Option<int>, c: CpuView) -> Intercepted {
    let s = preempted(v.sched, v.objects, c);
    Intercepted {
        os: OsView { sched: s.sched, ..v },
        cpu: s.cpu,
        switched: s.done,
        thunk: if s.done {
            None
        } else {
            at
        },
    }
}

/// What a served call leads to once its result is in place.
pub struct Completed {
    pub os: OsView,
    pub cpu: CpuView,
    pub mem: MemView,
    pub r: Result<Exit, Fault>,
}

/// What serving a call and returning from it leads to.
pub open spec fn complete_out(v: OsView, api: Api, c: CpuView, m: MemView, host: HostReply) -> Completed {
    let o = dispatch_out(v, api, c, m, host);
    match o.r {
        Err(f) => Completed { os: o.os, cpu: o.cpu, mem: o.mem, r: Err(f) },
        Ok(Outcome::Exit(code)) => Completed {
            os: o.os,
            cpu: o.cpu,
            mem: o.mem,
            r: Ok(Exit::ProcessExit(code)),
        },
        Ok(Outcome::Resume) => Completed {
            os: o.os,
            cpu: o.cpu,
            mem: o.mem,
            r: Ok(Exit::Continue),
        },
        Ok(Outcome::Return(x)) => {
            let d = with_result(v.wide(), o.cpu, x);
            match returned(v.wide(), d, o.mem, api.pops()) {
                Err(f) => Completed { os: o.os, cpu: d, mem: o.mem, r: Err(f) },
                Ok(e) => Completed { os: o.os, cpu: e, mem: o.mem, r: Ok(Exit::Continue) },
            }
        },
    }
}

impl WinOs {
    /// Look at the instruction at `rip` before it is executed.
    pub fn intercept(&mut self, rip: u64, cpu: &mut CpuState, mem: &VirtualMemory) -> (s: Step)
        requires
            old(self).wf(),
            old(self).has_room(),
        ensures
            final(self).wf(),
            final(self).has_room(),
            final(self).thunks == old(self).thunks,
            ({
                let o = intercept_out(old(self)@, old(self).thunks.at(rip), old(cpu)@);
                &&& final(self)@ == o.os
                &&& final(cpu)@ == o.cpu
                &&& match s {
                    Step::Switched => o.switched,
                    Step::Pass => !o.switched && o.thunk is None,
                    Step::Serve { thunk, request } => {
                        &&& !o.switched
                        &&& o.thunk == Some(thunk as int)
                        &&& thunk < final(self).thunks.apis.len()
                        &&& request@ == dispatch_asks(
                            o.os,
                            final(self).api_at(thunk),
                            o.cpu,
                            mem@,
                        )
                    },
                }
            }),
    {
        if self.sched.preempt(cpu, &self.objects) {
            return Step::Switched;
        }
        match self.thunks.lookup(rip) {
            None => Step::Pass,
            Some(thunk) => {
                let request = self.request(thunk, cpu, mem);
                Step::Serve { thunk, request }
            },
        }
    }

    /// Serve the call of thunk `i`, with what the host answered, and return from it.
    pub fn complete(
        &mut self,
        i: usize,
        cpu: &mut CpuState,
        mem: &mut VirtualMemory,
        host: &HostReply,
    ) -> (r: Result<Exit, Fault>)
        requires
            old(self).wf(),
            old(self).has_room(),
            i < old(self).thunks.apis.len(),
            ready(old(self)@, old(self).api_at(i)),
        ensures
            final(self).wf(),
            final(self).thunks.extends(old(self).thunks),
            (Completed { os: final(self)@, cpu: final(cpu)@, mem: final(mem)@, r }) == complete_out(
                old(self)@,
                old(self).api_at(i),
                old(cpu)@,
                old(mem)@,
                *host,
            ),
    {
        let argc: u32 = self.thunks.apis[i].argc();
        let is_64bit: bool = self.cfg.is_64bit;
        match self.dispatch(i, cpu, mem, host) {
            Err(f) => Err(f),
            Ok(Outcome::Exit(code)) => Ok(Exit::ProcessExit(code)),
            Ok(Outcome::Resume) => Ok(Exit::Continue),
            Ok(Outcome::Return(x)) => {
                set_result(is_64bit, cpu, x);
                match ret(is_64bit, cpu, mem, argc) {
                    Ok(_) => Ok(Exit::Continue),
                    Err(f) => Err(f),
                }
            },
        }
    }
}

/// A host half that does not block a thread leaves the registers as they are.
proof fn lemma_unix_keeps_registers(v: OsView, c: CpuView, m: MemView)
    ensures
        unix_out(v, c, m).r matches Ok(Outcome::Return(_)) ==> unix_out(v, c, m).cpu == c,
{
    reveal(crate::process::unix_out);
    lemma_request_keeps_registers(
        OsView { unix_call_blocked: false, ..v },
        c,
        m,
        c.reg(Reg::R8),
    );
}

/// The services on the process, its modules and its time leave the registers to the return.
proof fn lemma_process_registers(v: OsView, api: Api, c: CpuView, m: MemView, host: HostReply)
    ensures
        process_group(v, api, c, m, host) matches Some(o) ==> (o.r matches Ok(Outcome::Return(_))
            ==> o.cpu == c),
{
    reveal(crate::process::exit_now_out);
    reveal(crate::process::exit_process_out);
    reveal(crate::process::free_library_out);
    reveal(crate::process::get_proc_out);
    reveal(crate::process::load_library_out);
    reveal(process_group);
}

/// The services on calls that move control leave the registers to the return.
proof fn lemma_driver_registers(v: OsView, api: Api, c: CpuView, m: MemView, host: HostReply)
    ensures
        driver_group(v, api, c, m, host) matches Some(o) ==> (o.r matches Ok(Outcome::Return(_))
            ==> o.cpu == c),
{
    reveal(crate::process::callback_next_out);
    reveal(crate::process::initterm_out);
    reveal(crate::process::unix_out);
    reveal(driver_group);
    lemma_unix_keeps_registers(v, c, m);
}

/// The services on memory leave the registers to the return.
proof fn lemma_memory_registers(v: OsView, api: Api, c: CpuView, m: MemView, host: HostReply)
    ensures
        memory_group(v, api, c, m, host) matches Some(o) ==> (o.r matches Ok(Outcome::Return(_))
            ==> o.cpu == c),
{
    reveal(memory_group);
}

/// The services on texts leave the registers to the return.
proof fn lemma_text_registers(v: OsView, api: Api, c: CpuView, m: MemView, host: HostReply)
    ensures
        text_group(v, api, c, m, host) matches Some(o) ==> (o.r matches Ok(Outcome::Return(_))
            ==> o.cpu == c),
{
    reveal(text_group);
}

/// The services on the console leave the registers to the return.
proof fn lemma_console_registers(v: OsView, api: Api, c: CpuView, m: MemView, host: HostReply)
    ensures
        console_group(v, api, c, m, host) matches Some(o) ==> (o.r matches Ok(Outcome::Return(_))
            ==> o.cpu == c),
{
    reveal(console_group);
}

/// The services on files leave the registers to the return.
proof fn lemma_files_registers(v: OsView, api: Api, c: CpuView, m: MemView, host: HostReply)
    ensures
        files_group(v, api, c, m, host) matches Some(o) ==> (o.r matches Ok(Outcome::Return(_))
            ==> o.cpu == c),
{
    reveal(files_group);
}

/// The services on dialogs and messages leave the registers to the return.
proof fn lemma_dialog_registers(v: OsView, api: Api, c: CpuView, m: MemView, host: HostReply)
    ensures
        dialog_group(v, api, c, m, host) matches Some(o) ==> (o.r matches Ok(Outcome::Return(_))
            ==> o.cpu == c),
{
    reveal(crate::dialogs::dialog_started);
    reveal(crate::dialogs::create_dialog_out);
    reveal(crate::dialogs::get_message_out);
    reveal(crate::dialogs::peek_message_out);
    reveal(dialog_group);
}

/// The services on windows leave the registers to the return.
proof fn lemma_window_registers(v: OsView, api: Api, c: CpuView, m: MemView, host: HostReply)
    ensures
        window_group(v, api, c, m, host) matches Some(o) ==> (o.r matches Ok(Outcome::Return(_))
            ==> o.cpu == c),
{
    reveal(crate::windows::create_window_out);
    reveal(crate::windows::dispatch_message_out);
    reveal(window_group);
}

/// The services on drawing leave the registers to the return.
proof fn lemma_drawing_registers(v: OsView, api: Api, c: CpuView, m: MemView, host: HostReply)
    ensures
        drawing_group(v, api, c, m, host) matches Some(o) ==> (o.r matches Ok(Outcome::Return(_))
            ==> o.cpu == c),
{
    reveal(drawing_group);
}

/// A service that answers with a value leaves every register as its caller set it.
pub proof fn lemma_service_keeps_registers(
    v: OsView,
    api: Api,
    c: CpuView,
    m: MemView,
    host: HostReply,
)
    ensures
        dispatch_out(v, api, c, m, host).r matches Ok(Outcome::Return(_)) ==> dispatch_out(
            v,
            api,
            c,
            m,
            host,
        ).cpu == c,
{
    reveal(dispatch_out);
    lemma_process_registers(v, api, c, m, host);
    lemma_driver_registers(v, api, c, m, host);
    lemma_memory_registers(v, api, c, m, host);
    lemma_text_registers(v, api, c, m, host);
    lemma_console_registers(v, api, c, m, host);
    lemma_files_registers(v, api, c, m, host);
    lemma_dialog_registers(v, api, c, m, host);
    lemma_window_registers(v, api, c, m, host);
    lemma_drawing_registers(v, api, c, m, host);
    reveal(bound_group);
    if let Api::Bound(n) = api {
        lemma_bound_registers(v, n, c, m, host);
    }
}

/// A call that answers with a value goes on behind the call, with the value in the
/// result register and the stack as the calling convention has it: a 64-bit call
/// takes its return address off, and a 32-bit one as many arguments as its symbol
/// has besides.
pub proof fn lemma_call_returns(v: OsView, api: Api, c: CpuView, m: MemView, host: HostReply, x: u64)
    requires
        c.gpr.len() == 16,
        dispatch_out(v, api, c, m, host).r == Ok::<Outcome, Fault>(Outcome::Return(x)),
        complete_out(v, api, c, m, host).r is Ok,
    ensures
        ({
            let o = complete_out(v, api, c, m, host);
            &&& o.r == Ok::<Exit, Fault>(Exit::Continue)
            &&& o.mem.rptr(v.wide(), c.rsp()) == Ok::<u64, Fault>(o.cpu.rip)
            &&& v.wide() ==> o.cpu.rsp() == ga(c.rsp(), 8) && o.cpu.reg(Reg::Rax) == x
            &&& !v.wide() ==> o.cpu.rsp() == (ga(c.rsp(), 4 + 4 * api.pops()) as u32) as u64
                && o.cpu.reg(Reg::Rax) == (x as u32) as u64
        }),
{
    lemma_service_keeps_registers(v, api, c, m, host);
}

/// An import that is not served returns 0 to its caller and changes nothing else.
pub proof fn lemma_unsupported(v: OsView, api: Api, c: CpuView, m: MemView, host: HostReply)
    requires
        api is Unsupported,
    ensures
        dispatch_out(v, api, c, m, host) == answered(v, c, m, 0),
        dispatch_asks(v, api, c, m) == RequestView::Nothing,
{
    reveal(dispatch_asks);
    reveal(dispatch_out);
}

} // verus!
