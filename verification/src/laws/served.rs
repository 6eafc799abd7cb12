//! Which services serve which calls, and what they ask of the host.

use vstd::prelude::*;

use crate::api::Api;
use crate::bound::{
    bound_asks, capture_out, find_lift, first_asks, focus_out, full_path_reply, input_service,
    invalidate_out, message_lift, next_out, object_lift, placed_out, reg_lift, registry_service,
    restore_out, signal_lift, slot_free_out, slot_get_out, slot_set_out, sync_service,
    system_service, thread_service, transfer_asks, transferred_out, translated_out, validate_out,
    wait_lift, window_lift, window_service,
};
use crate::clock::told;
use crate::console::{fputc_out, fwrite_out, puts_out, std_handle_reply, write_asks, write_out};
use crate::cpu::{CpuView, Reg};
use crate::crt::{
    block_order_reply, bounded_reply, byte_len_reply, copy_reply, fill_reply, move_reply,
    next_reply, order_reply, prev_reply, wide_len_reply,
};
use crate::dialogs::{
    end_dialog_out, get_item_reply, get_message_out, get_window_text_reply, item_reply,
    peek_message_out, quit_out, send_out, set_item_out, set_window_text_out,
};
use crate::dispatch::{
    bound_group, console_group, dialog_group, dispatch_asks, dispatch_out, drawing_group,
    driver_group, files_group, mapped_out, memory_group, process_group, set_error_out, text_group,
    window_group,
};
use crate::files::{
    attributes_asks, attributes_reply, close_asks, close_handle_out, create_asks, create_file_out,
    delete_asks, directory_asks, path_reply, read_asks, read_reply, seek_asks, seek_reply,
    size_asks, size_reply, times_asks, times_reply, told_text,
};
use crate::gdi::GdiView;
use crate::host::HostReply;
use crate::kobj::{create_sync_out, open_sync_out, signal_out, wait_multiple_out, wait_single_out};
use crate::laws::{
    lemma_bound_serves, lemma_console_serves, lemma_dialog_serves, lemma_drawing_serves,
    lemma_driver_serves, lemma_files_serves, lemma_memory_serves, lemma_process_serves,
    lemma_text_serves, lemma_window_serves,
};
use crate::mem::MemView;
use crate::msg::{post_out, post_thread_out};
use crate::named::Named;
use crate::ntvm::{valloc_out, vfree_out, vprotect_out, vquery_reply};
use crate::os::{free_slot, OsView};
use crate::process::{
    exit_now_out, exit_process_out, get_proc_out, load_library_out, module_handle_out,
};
use crate::reg::{
    close_out, create_out, delete_key_out, delete_value_out, enum_key_out, open_out, query_info_out,
    query_out, set_out,
};
use crate::serve::{answered, exited, replied, replied_os};
use crate::sync::{SignalOp, SyncKind};
use crate::thread::{
    count_out, create_thread_out, exit_code_out, exit_thread_out, terminate_thread_out,
};
use crate::time::QPC_FREQ;
use crate::win::{
    client_reply, get_prop_reply, long_out, move_args, rect_reply, remove_prop_out, set_prop_out,
};
use crate::windows::{
    brush_out, create_window_out, dispatch_message_out, fill_rect_out, move_to_out, pen_out,
    pixel_out, rectangle_out, register_out, select_out, text_color_out, text_out_out,
};

verus! {

/// What serves the call.
pub proof fn serves_exit_process(v: OsView, c: CpuView, m: MemView, host: HostReply)
    ensures
        dispatch_out(v, Api::ExitProcess, c, m, host) == exit_process_out(v, c, m),
{
    lemma_process_serves(v, Api::ExitProcess, c, m, host);
    reveal(process_group);
}

/// What serves the call.
pub proof fn serves_return_exit(v: OsView, c: CpuView, m: MemView, host: HostReply)
    ensures
        dispatch_out(v, Api::ReturnExit, c, m, host) == exited(v, c, m, (c.reg(Reg::Rax) as u32) as i32),
{
    lemma_process_serves(v, Api::ReturnExit, c, m, host);
    reveal(process_group);
}

/// What serves the call.
pub proof fn serves_terminate_process(v: OsView, c: CpuView, m: MemView, host: HostReply)
    ensures
        dispatch_out(v, Api::TerminateProcess, c, m, host) == exit_now_out(v, c, m, 1),
{
    lemma_process_serves(v, Api::TerminateProcess, c, m, host);
    reveal(process_group);
}

/// What serves the call.
pub proof fn serves_crt_exit(v: OsView, c: CpuView, m: MemView, host: HostReply)
    ensures
        dispatch_out(v, Api::CrtExit, c, m, host) == exit_now_out(v, c, m, 0),
{
    lemma_process_serves(v, Api::CrtExit, c, m, host);
    reveal(process_group);
}

/// What serves the call.
pub proof fn serves_get_module_handle_a(v: OsView, c: CpuView, m: MemView, host: HostReply)
    ensures
        dispatch_out(v, Api::GetModuleHandleA, c, m, host) == replied_os(c, module_handle_out(v, c, m, false, host)),
{
    lemma_process_serves(v, Api::GetModuleHandleA, c, m, host);
    reveal(process_group);
}

/// What serves the call.
pub proof fn serves_load_library_a(v: OsView, c: CpuView, m: MemView, host: HostReply)
    ensures
        dispatch_out(v, Api::LoadLibraryA, c, m, host) == load_library_out(v, c, m, false, 1, host),
{
    lemma_process_serves(v, Api::LoadLibraryA, c, m, host);
    reveal(process_group);
}

/// What serves the call.
pub proof fn serves_get_proc_address(v: OsView, c: CpuView, m: MemView, host: HostReply)
    ensures
        dispatch_out(v, Api::GetProcAddress, c, m, host) == get_proc_out(v, c, m),
{
    lemma_process_serves(v, Api::GetProcAddress, c, m, host);
    reveal(process_group);
}

/// What serves the call.
pub proof fn serves_set_last_error(v: OsView, c: CpuView, m: MemView, host: HostReply)
    ensures
        dispatch_out(v, Api::SetLastError, c, m, host) == set_error_out(v, c, m),
{
    lemma_process_serves(v, Api::SetLastError, c, m, host);
    reveal(process_group);
}

/// What serves the call.
pub proof fn serves_query_performance_counter(v: OsView, c: CpuView, m: MemView, host: HostReply)
    ensures
        dispatch_out(v, Api::QueryPerformanceCounter, c, m, host) == replied(v, c, told(v.wide(), c, m, v.clock.ticks, 1)),
{
    lemma_process_serves(v, Api::QueryPerformanceCounter, c, m, host);
    reveal(process_group);
}

/// What serves the call.
pub proof fn serves_query_performance_frequency(v: OsView, c: CpuView, m: MemView, host: HostReply)
    ensures
        dispatch_out(v, Api::QueryPerformanceFrequency, c, m, host) == replied(v, c, told(v.wide(), c, m, QPC_FREQ, 1)),
{
    lemma_process_serves(v, Api::QueryPerformanceFrequency, c, m, host);
    reveal(process_group);
}

/// What serves the call.
pub proof fn serves_get_system_time_as_file_time(v: OsView, c: CpuView, m: MemView, host: HostReply)
    ensures
        dispatch_out(v, Api::GetSystemTimeAsFileTime, c, m, host) == replied(v, c, told(v.wide(), c, m, v.clock.filetime, 0)),
{
    lemma_process_serves(v, Api::GetSystemTimeAsFileTime, c, m, host);
    reveal(process_group);
}

/// What serves the call.
pub proof fn serves_virtual_alloc(v: OsView, c: CpuView, m: MemView, host: HostReply)
    ensures
        dispatch_out(v, Api::VirtualAlloc, c, m, host) == mapped_out(v, c, valloc_out(v.vm, v.last_error, v.wide(), c, m)),
{
    lemma_memory_serves(v, Api::VirtualAlloc, c, m, host);
    reveal(memory_group);
}

/// What serves the call.
pub proof fn serves_virtual_free(v: OsView, c: CpuView, m: MemView, host: HostReply)
    ensures
        dispatch_out(v, Api::VirtualFree, c, m, host) == mapped_out(v, c, vfree_out(v.vm, v.last_error, v.wide(), c, m)),
{
    lemma_memory_serves(v, Api::VirtualFree, c, m, host);
    reveal(memory_group);
}

/// What serves the call.
pub proof fn serves_memcpy(v: OsView, c: CpuView, m: MemView, host: HostReply)
    ensures
        dispatch_out(v, Api::Memcpy, c, m, host) == replied(v, c, move_reply(v.wide(), c, m)),
{
    lemma_memory_serves(v, Api::Memcpy, c, m, host);
    reveal(memory_group);
}

/// What serves the call.
pub proof fn serves_memset(v: OsView, c: CpuView, m: MemView, host: HostReply)
    ensures
        dispatch_out(v, Api::Memset, c, m, host) == replied(v, c, fill_reply(v.wide(), c, m)),
{
    lemma_memory_serves(v, Api::Memset, c, m, host);
    reveal(memory_group);
}

/// What serves the call.
pub proof fn serves_memcmp(v: OsView, c: CpuView, m: MemView, host: HostReply)
    ensures
        dispatch_out(v, Api::Memcmp, c, m, host) == replied(v, c, block_order_reply(v.wide(), c, m)),
{
    lemma_text_serves(v, Api::Memcmp, c, m, host);
    reveal(text_group);
}

/// What serves the call.
pub proof fn serves_strlen(v: OsView, c: CpuView, m: MemView, host: HostReply)
    ensures
        dispatch_out(v, Api::Strlen, c, m, host) == replied(v, c, byte_len_reply(v.wide(), c, m, false)),
{
    lemma_text_serves(v, Api::Strlen, c, m, host);
    reveal(text_group);
}

/// What serves the call.
pub proof fn serves_lstrlen_a(v: OsView, c: CpuView, m: MemView, host: HostReply)
    ensures
        dispatch_out(v, Api::LstrlenA, c, m, host) == replied(v, c, byte_len_reply(v.wide(), c, m, true)),
{
    lemma_text_serves(v, Api::LstrlenA, c, m, host);
    reveal(text_group);
}

/// What serves the call.
pub proof fn serves_lstrlen_w(v: OsView, c: CpuView, m: MemView, host: HostReply)
    ensures
        dispatch_out(v, Api::LstrlenW, c, m, host) == replied(v, c, wide_len_reply(v.wide(), c, m)),
{
    lemma_text_serves(v, Api::LstrlenW, c, m, host);
    reveal(text_group);
}

/// What serves the call.
pub proof fn serves_char_next_a(v: OsView, c: CpuView, m: MemView, host: HostReply)
    ensures
        dispatch_out(v, Api::CharNextA, c, m, host) == replied(v, c, next_reply(v.wide(), c, m, false)),
{
    lemma_text_serves(v, Api::CharNextA, c, m, host);
    reveal(text_group);
}

/// What serves the call.
pub proof fn serves_char_next_w(v: OsView, c: CpuView, m: MemView, host: HostReply)
    ensures
        dispatch_out(v, Api::CharNextW, c, m, host) == replied(v, c, next_reply(v.wide(), c, m, true)),
{
    lemma_text_serves(v, Api::CharNextW, c, m, host);
    reveal(text_group);
}

/// What serves the call.
pub proof fn serves_char_prev_w(v: OsView, c: CpuView, m: MemView, host: HostReply)
    ensures
        dispatch_out(v, Api::CharPrevW, c, m, host) == replied(v, c, prev_reply(v.wide(), c, m)),
{
    lemma_text_serves(v, Api::CharPrevW, c, m, host);
    reveal(text_group);
}

/// What serves the call.
pub proof fn serves_lstrcpy_w(v: OsView, c: CpuView, m: MemView, host: HostReply)
    ensures
        dispatch_out(v, Api::LstrcpyW, c, m, host) == replied(v, c, copy_reply(v.wide(), c, m, false)),
{
    lemma_text_serves(v, Api::LstrcpyW, c, m, host);
    reveal(text_group);
}

/// What serves the call.
pub proof fn serves_lstrcat_w(v: OsView, c: CpuView, m: MemView, host: HostReply)
    ensures
        dispatch_out(v, Api::LstrcatW, c, m, host) == replied(v, c, copy_reply(v.wide(), c, m, true)),
{
    lemma_text_serves(v, Api::LstrcatW, c, m, host);
    reveal(text_group);
}

/// What serves the call.
pub proof fn serves_lstrcpyn_w(v: OsView, c: CpuView, m: MemView, host: HostReply)
    ensures
        dispatch_out(v, Api::LstrcpynW, c, m, host) == replied(v, c, bounded_reply(v.wide(), c, m)),
{
    lemma_text_serves(v, Api::LstrcpynW, c, m, host);
    reveal(text_group);
}

/// What serves the call.
pub proof fn serves_lstrcmp_w(v: OsView, c: CpuView, m: MemView, host: HostReply)
    ensures
        dispatch_out(v, Api::LstrcmpW, c, m, host) == replied(v, c, order_reply(v.wide(), c, m, false)),
{
    lemma_text_serves(v, Api::LstrcmpW, c, m, host);
    reveal(text_group);
}

/// What serves the call.
pub proof fn serves_lstrcmpi_w(v: OsView, c: CpuView, m: MemView, host: HostReply)
    ensures
        dispatch_out(v, Api::LstrcmpiW, c, m, host) == replied(v, c, order_reply(v.wide(), c, m, true)),
{
    lemma_text_serves(v, Api::LstrcmpiW, c, m, host);
    reveal(text_group);
}

/// What serves the call.
pub proof fn serves_get_std_handle(v: OsView, c: CpuView, m: MemView, host: HostReply)
    ensures
        dispatch_out(v, Api::GetStdHandle, c, m, host) == replied(v, c, std_handle_reply(v.wide(), c, m)),
{
    lemma_console_serves(v, Api::GetStdHandle, c, m, host);
    reveal(console_group);
}

/// What serves the call.
pub proof fn serves_write_file(v: OsView, c: CpuView, m: MemView, host: HostReply)
    ensures
        dispatch_out(v, Api::WriteFile, c, m, host) == replied_os(c, write_out(v, c, m, true, host)),
{
    lemma_console_serves(v, Api::WriteFile, c, m, host);
    reveal(console_group);
}

/// What serves the call.
pub proof fn serves_fputs(v: OsView, c: CpuView, m: MemView, host: HostReply)
    ensures
        dispatch_out(v, Api::Fputs, c, m, host) == replied_os(c, puts_out(v, c, m, false)),
{
    lemma_console_serves(v, Api::Fputs, c, m, host);
    reveal(console_group);
}

/// What serves the call.
pub proof fn serves_puts(v: OsView, c: CpuView, m: MemView, host: HostReply)
    ensures
        dispatch_out(v, Api::Puts, c, m, host) == replied_os(c, puts_out(v, c, m, true)),
{
    lemma_console_serves(v, Api::Puts, c, m, host);
    reveal(console_group);
}

/// What serves the call.
pub proof fn serves_fputc(v: OsView, c: CpuView, m: MemView, host: HostReply)
    ensures
        dispatch_out(v, Api::Fputc, c, m, host) == replied_os(c, fputc_out(v, c, m)),
{
    lemma_console_serves(v, Api::Fputc, c, m, host);
    reveal(console_group);
}

/// What serves the call.
pub proof fn serves_fwrite(v: OsView, c: CpuView, m: MemView, host: HostReply)
    ensures
        dispatch_out(v, Api::Fwrite, c, m, host) == replied_os(c, fwrite_out(v, c, m)),
{
    lemma_console_serves(v, Api::Fwrite, c, m, host);
    reveal(console_group);
}

/// What serves the call.
pub proof fn serves_create_file_w(v: OsView, c: CpuView, m: MemView, host: HostReply)
    ensures
        dispatch_out(v, Api::CreateFileW, c, m, host) == replied_os(c, create_file_out(v, c, m, host)),
{
    lemma_files_serves(v, Api::CreateFileW, c, m, host);
    reveal(files_group);
}

/// What serves the call.
pub proof fn serves_read_file_api(v: OsView, c: CpuView, m: MemView, host: HostReply)
    ensures
        dispatch_out(v, Api::ReadFileApi, c, m, host) == replied(v, c, read_reply(v, c, m, host)),
{
    lemma_files_serves(v, Api::ReadFileApi, c, m, host);
    reveal(files_group);
}

/// What serves the call.
pub proof fn serves_close_handle(v: OsView, c: CpuView, m: MemView, host: HostReply)
    ensures
        dispatch_out(v, Api::CloseHandle, c, m, host) == replied_os(c, close_handle_out(v, c, m)),
{
    lemma_files_serves(v, Api::CloseHandle, c, m, host);
    reveal(files_group);
}

/// What serves the call.
pub proof fn serves_create_directory_w(v: OsView, c: CpuView, m: MemView, host: HostReply)
    ensures
        dispatch_out(v, Api::CreateDirectoryW, c, m, host) == replied(v, c, path_reply(v, c, m, host)),
{
    lemma_files_serves(v, Api::CreateDirectoryW, c, m, host);
    reveal(files_group);
}

/// What serves the call.
pub proof fn serves_delete_file_w(v: OsView, c: CpuView, m: MemView, host: HostReply)
    ensures
        dispatch_out(v, Api::DeleteFileW, c, m, host) == replied(v, c, path_reply(v, c, m, host)),
{
    lemma_files_serves(v, Api::DeleteFileW, c, m, host);
    reveal(files_group);
}

/// What serves the call.
pub proof fn serves_get_file_attributes_w(v: OsView, c: CpuView, m: MemView, host: HostReply)
    ensures
        dispatch_out(v, Api::GetFileAttributesW, c, m, host) == replied(v, c, attributes_reply(v, c, m, host)),
{
    lemma_files_serves(v, Api::GetFileAttributesW, c, m, host);
    reveal(files_group);
}

/// What serves the call.
pub proof fn serves_get_file_size_api(v: OsView, c: CpuView, m: MemView, host: HostReply)
    ensures
        dispatch_out(v, Api::GetFileSizeApi, c, m, host) == replied(v, c, size_reply(v, c, m, host)),
{
    lemma_files_serves(v, Api::GetFileSizeApi, c, m, host);
    reveal(files_group);
}

/// What serves the call.
pub proof fn serves_set_file_pointer_api(v: OsView, c: CpuView, m: MemView, host: HostReply)
    ensures
        dispatch_out(v, Api::SetFilePointerApi, c, m, host) == replied(v, c, seek_reply(v, c, m, host)),
{
    lemma_files_serves(v, Api::SetFilePointerApi, c, m, host);
    reveal(files_group);
}

/// What serves the call.
pub proof fn serves_get_message_api(v: OsView, c: CpuView, m: MemView, host: HostReply)
    ensures
        dispatch_out(v, Api::GetMessageApi, c, m, host) == get_message_out(v, c, m, host),
{
    lemma_dialog_serves(v, Api::GetMessageApi, c, m, host);
    reveal(dialog_group);
}

/// What serves the call.
pub proof fn serves_peek_message_api(v: OsView, c: CpuView, m: MemView, host: HostReply)
    ensures
        dispatch_out(v, Api::PeekMessageApi, c, m, host) == peek_message_out(v, c, m, host),
{
    lemma_dialog_serves(v, Api::PeekMessageApi, c, m, host);
    reveal(dialog_group);
}

/// What serves the call.
pub proof fn serves_dispatch_message_api(v: OsView, c: CpuView, m: MemView, host: HostReply)
    ensures
        dispatch_out(v, Api::DispatchMessageApi, c, m, host) == dispatch_message_out(v, c, m),
{
    lemma_window_serves(v, Api::DispatchMessageApi, c, m, host);
    reveal(window_group);
}

/// What serves the call.
pub proof fn serves_get_client_rect_api(v: OsView, c: CpuView, m: MemView, host: HostReply)
    ensures
        dispatch_out(v, Api::GetClientRectApi, c, m, host) == replied(v, c, client_reply(v.gdi, v.wide(), c, m)),
{
    lemma_window_serves(v, Api::GetClientRectApi, c, m, host);
    reveal(window_group);
}

/// What serves the call.
pub proof fn serves_fill_rect_api(v: OsView, c: CpuView, m: MemView, host: HostReply)
    ensures
        dispatch_out(v, Api::FillRectApi, c, m, host) == replied_os(c, fill_rect_out(v, c, m)),
{
    lemma_drawing_serves(v, Api::FillRectApi, c, m, host);
    reveal(drawing_group);
}

/// What serves the call.
pub proof fn serves_rectangle_api(v: OsView, c: CpuView, m: MemView, host: HostReply)
    ensures
        dispatch_out(v, Api::RectangleApi, c, m, host) == replied_os(c, rectangle_out(v, c, m)),
{
    lemma_drawing_serves(v, Api::RectangleApi, c, m, host);
    reveal(drawing_group);
}

/// What serves the call.
pub proof fn serves_create_solid_brush_api(v: OsView, c: CpuView, m: MemView, host: HostReply)
    ensures
        dispatch_out(v, Api::CreateSolidBrushApi, c, m, host) == replied_os(c, brush_out(v, c, m)),
{
    lemma_drawing_serves(v, Api::CreateSolidBrushApi, c, m, host);
    reveal(drawing_group);
}

/// What serves the call.
pub proof fn serves_create_pen_api(v: OsView, c: CpuView, m: MemView, host: HostReply)
    ensures
        dispatch_out(v, Api::CreatePenApi, c, m, host) == replied_os(c, pen_out(v, c, m)),
{
    lemma_drawing_serves(v, Api::CreatePenApi, c, m, host);
    reveal(drawing_group);
}

/// What serves the call.
pub proof fn serves_move_to_ex_api(v: OsView, c: CpuView, m: MemView, host: HostReply)
    ensures
        dispatch_out(v, Api::MoveToExApi, c, m, host) == replied_os(c, move_to_out(v, c, m, false)),
{
    lemma_drawing_serves(v, Api::MoveToExApi, c, m, host);
    reveal(drawing_group);
}

/// What serves the call.
pub proof fn serves_line_to_api(v: OsView, c: CpuView, m: MemView, host: HostReply)
    ensures
        dispatch_out(v, Api::LineToApi, c, m, host) == replied_os(c, move_to_out(v, c, m, true)),
{
    lemma_drawing_serves(v, Api::LineToApi, c, m, host);
    reveal(drawing_group);
}

/// What serves the call.
pub proof fn serves_set_pixel_api(v: OsView, c: CpuView, m: MemView, host: HostReply)
    ensures
        dispatch_out(v, Api::SetPixelApi, c, m, host) == replied_os(c, pixel_out(v, c, m)),
{
    lemma_drawing_serves(v, Api::SetPixelApi, c, m, host);
    reveal(drawing_group);
}

/// What the call asks of the host.
pub proof fn asks_write_file(v: OsView, c: CpuView, m: MemView)
    ensures
        dispatch_asks(v, Api::WriteFile, c, m) == write_asks(v, c, m),
{
    reveal(dispatch_asks);
}

/// What the call asks of the host.
pub proof fn asks_create_file_w(v: OsView, c: CpuView, m: MemView)
    ensures
        dispatch_asks(v, Api::CreateFileW, c, m) == create_asks(v, c, m),
{
    reveal(dispatch_asks);
}

/// What the call asks of the host.
pub proof fn asks_read_file_api(v: OsView, c: CpuView, m: MemView)
    ensures
        dispatch_asks(v, Api::ReadFileApi, c, m) == read_asks(v, c, m),
{
    reveal(dispatch_asks);
}

/// What the call asks of the host.
pub proof fn asks_close_handle(v: OsView, c: CpuView, m: MemView)
    ensures
        dispatch_asks(v, Api::CloseHandle, c, m) == close_asks(v, c, m),
{
    reveal(dispatch_asks);
}

/// What the call asks of the host.
pub proof fn asks_create_directory_w(v: OsView, c: CpuView, m: MemView)
    ensures
        dispatch_asks(v, Api::CreateDirectoryW, c, m) == directory_asks(v, c, m),
{
    reveal(dispatch_asks);
}

/// What the call asks of the host.
pub proof fn asks_delete_file_w(v: OsView, c: CpuView, m: MemView)
    ensures
        dispatch_asks(v, Api::DeleteFileW, c, m) == delete_asks(v, c, m),
{
    reveal(dispatch_asks);
}

/// What the call asks of the host.
pub proof fn asks_get_file_attributes_w(v: OsView, c: CpuView, m: MemView)
    ensures
        dispatch_asks(v, Api::GetFileAttributesW, c, m) == attributes_asks(v, c, m),
{
    reveal(dispatch_asks);
}

/// What the call asks of the host.
pub proof fn asks_get_file_size_api(v: OsView, c: CpuView, m: MemView)
    ensures
        dispatch_asks(v, Api::GetFileSizeApi, c, m) == size_asks(v, c, m),
{
    reveal(dispatch_asks);
}

/// What the call asks of the host.
pub proof fn asks_set_file_pointer_api(v: OsView, c: CpuView, m: MemView)
    ensures
        dispatch_asks(v, Api::SetFilePointerApi, c, m) == seek_asks(v, c, m),
{
    reveal(dispatch_asks);
}

/// What the call asks of the host.
pub proof fn asks_move_file(v: OsView, c: CpuView, m: MemView, ex: bool, wide: bool)
    ensures
        dispatch_asks(v, Api::Bound(Named::MoveFile { ex, wide }), c, m) == transfer_asks(v, c, m, false, wide),
{
    reveal(dispatch_asks);
    reveal(bound_asks);
}

/// What the call asks of the host.
pub proof fn asks_copy_file(v: OsView, c: CpuView, m: MemView, wide: bool)
    ensures
        dispatch_asks(v, Api::Bound(Named::CopyFile { wide }), c, m) == transfer_asks(v, c, m, true, wide),
{
    reveal(dispatch_asks);
    reveal(bound_asks);
}

/// What the call asks of the host.
pub proof fn asks_file_time(v: OsView, c: CpuView, m: MemView)
    ensures
        dispatch_asks(v, Api::Bound(Named::FileTime), c, m) == times_asks(v, c, m),
{
    reveal(dispatch_asks);
    reveal(bound_asks);
}

/// What serves the call.
pub proof fn bound_create_thread(v: OsView, c: CpuView, m: MemView, host: HostReply, runtime: bool)
    ensures
        dispatch_out(v, Api::Bound(Named::CreateThread { runtime }), c, m, host) == replied_os(c, create_thread_out(v, c, m)),
{
    lemma_bound_serves(v, Api::Bound(Named::CreateThread { runtime }), c, m, host);
    reveal(bound_group);
    reveal(thread_service);
}

/// What serves the call.
pub proof fn bound_exit_thread(v: OsView, c: CpuView, m: MemView, host: HostReply, runtime: bool)
    ensures
        dispatch_out(v, Api::Bound(Named::ExitThread { runtime }), c, m, host) == exit_thread_out(v, c, m),
{
    lemma_bound_serves(v, Api::Bound(Named::ExitThread { runtime }), c, m, host);
    reveal(bound_group);
    reveal(thread_service);
}

/// What serves the call.
pub proof fn bound_resume_thread(v: OsView, c: CpuView, m: MemView, host: HostReply)
    ensures
        dispatch_out(v, Api::Bound(Named::ResumeThread), c, m, host) == replied_os(c, count_out(v, c, m, false)),
{
    lemma_bound_serves(v, Api::Bound(Named::ResumeThread), c, m, host);
    reveal(bound_group);
    reveal(thread_service);
}

/// What serves the call.
pub proof fn bound_suspend_thread(v: OsView, c: CpuView, m: MemView, host: HostReply)
    ensures
        dispatch_out(v, Api::Bound(Named::SuspendThread), c, m, host) == replied_os(c, count_out(v, c, m, true)),
{
    lemma_bound_serves(v, Api::Bound(Named::SuspendThread), c, m, host);
    reveal(bound_group);
    reveal(thread_service);
}

/// What serves the call.
pub proof fn bound_get_exit_code_thread(v: OsView, c: CpuView, m: MemView, host: HostReply)
    ensures
        dispatch_out(v, Api::Bound(Named::GetExitCodeThread), c, m, host) == replied(v, c, exit_code_out(v, c, m)),
{
    lemma_bound_serves(v, Api::Bound(Named::GetExitCodeThread), c, m, host);
    reveal(bound_group);
    reveal(thread_service);
}

/// What serves the call.
pub proof fn bound_slot_get(v: OsView, c: CpuView, m: MemView, host: HostReply, fiber: bool)
    ensures
        dispatch_out(v, Api::Bound(Named::SlotGet { fiber }), c, m, host) == slot_get_out(v, c, m, fiber),
{
    lemma_bound_serves(v, Api::Bound(Named::SlotGet { fiber }), c, m, host);
    reveal(bound_group);
    reveal(thread_service);
}

/// What serves the call.
pub proof fn bound_slot_set(v: OsView, c: CpuView, m: MemView, host: HostReply, fiber: bool)
    ensures
        dispatch_out(v, Api::Bound(Named::SlotSet { fiber }), c, m, host) == slot_set_out(v, c, m, fiber),
{
    lemma_bound_serves(v, Api::Bound(Named::SlotSet { fiber }), c, m, host);
    reveal(bound_group);
    reveal(thread_service);
}

/// What serves the call.
pub proof fn bound_create_sync(v: OsView, c: CpuView, m: MemView, host: HostReply, kind: SyncKind, ex: bool, wide: bool)
    ensures
        dispatch_out(v, Api::Bound(Named::CreateSync { kind, ex, wide }), c, m, host) == object_lift(
            v,
            c,
            m,
            create_sync_out(v.obj_ctx(), v.sched.current_tid, v.wide(), c, m, kind, ex, wide),
        ),
{
    lemma_bound_serves(v, Api::Bound(Named::CreateSync { kind, ex, wide }), c, m, host);
    reveal(bound_group);
    reveal(sync_service);
}

/// What serves the call.
pub proof fn bound_open_sync(v: OsView, c: CpuView, m: MemView, host: HostReply, wide: bool)
    ensures
        dispatch_out(v, Api::Bound(Named::OpenSync { wide }), c, m, host) == object_lift(v, c, m, open_sync_out(v.obj_ctx(), v.wide(), c, m, wide)),
{
    lemma_bound_serves(v, Api::Bound(Named::OpenSync { wide }), c, m, host);
    reveal(bound_group);
    reveal(sync_service);
}

/// What serves the call.
pub proof fn bound_signal(v: OsView, c: CpuView, m: MemView, host: HostReply, op: SignalOp)
    ensures
        dispatch_out(v, Api::Bound(Named::Signal { op }), c, m, host) == signal_lift(v, c, signal_out(v.objects, v.sched.current_tid, v.wide(), c, m, op)),
{
    lemma_bound_serves(v, Api::Bound(Named::Signal { op }), c, m, host);
    reveal(bound_group);
    reveal(sync_service);
}

/// What serves the call.
pub proof fn bound_wait_single(v: OsView, c: CpuView, m: MemView, host: HostReply, ex: bool)
    ensures
        dispatch_out(v, Api::Bound(Named::WaitSingle { ex }), c, m, host) == wait_lift(v, m, wait_single_out(v.sched, v.objects, v.wide(), c, m)),
{
    lemma_bound_serves(v, Api::Bound(Named::WaitSingle { ex }), c, m, host);
    reveal(bound_group);
    reveal(sync_service);
}

/// What serves the call.
pub proof fn bound_wait_multiple(v: OsView, c: CpuView, m: MemView, host: HostReply, ex: bool)
    ensures
        dispatch_out(v, Api::Bound(Named::WaitMultiple { ex }), c, m, host) == wait_lift(v, m, wait_multiple_out(v.sched, v.objects, v.wide(), c, m)),
{
    lemma_bound_serves(v, Api::Bound(Named::WaitMultiple { ex }), c, m, host);
    reveal(bound_group);
    reveal(sync_service);
}

/// What serves the call.
pub proof fn bound_reg_create(v: OsView, c: CpuView, m: MemView, host: HostReply, wide: bool)
    ensures
        dispatch_out(v, Api::Bound(Named::RegCreate { wide }), c, m, host) == reg_lift(v, c, create_out(v.reg_ctx(), v.wide(), c, m, wide)),
{
    lemma_bound_serves(v, Api::Bound(Named::RegCreate { wide }), c, m, host);
    reveal(bound_group);
    reveal(registry_service);
}

/// What serves the call.
pub proof fn bound_reg_open(v: OsView, c: CpuView, m: MemView, host: HostReply, wide: bool)
    ensures
        dispatch_out(v, Api::Bound(Named::RegOpen { wide }), c, m, host) == reg_lift(v, c, open_out(v.reg_ctx(), v.wide(), c, m, wide)),
{
    lemma_bound_serves(v, Api::Bound(Named::RegOpen { wide }), c, m, host);
    reveal(bound_group);
    reveal(registry_service);
}

/// What serves the call.
pub proof fn bound_reg_set(v: OsView, c: CpuView, m: MemView, host: HostReply, wide: bool)
    ensures
        dispatch_out(v, Api::Bound(Named::RegSet { wide }), c, m, host) == reg_lift(v, c, set_out(v.reg_ctx(), v.wide(), c, m, wide)),
{
    lemma_bound_serves(v, Api::Bound(Named::RegSet { wide }), c, m, host);
    reveal(bound_group);
    reveal(registry_service);
}

/// What serves the call.
pub proof fn bound_reg_query(v: OsView, c: CpuView, m: MemView, host: HostReply, wide: bool)
    ensures
        dispatch_out(v, Api::Bound(Named::RegQuery { wide }), c, m, host) == reg_lift(v, c, query_out(v.reg_ctx(), v.wide(), c, m, wide)),
{
    lemma_bound_serves(v, Api::Bound(Named::RegQuery { wide }), c, m, host);
    reveal(bound_group);
    reveal(registry_service);
}

/// What serves the call.
pub proof fn bound_reg_close(v: OsView, c: CpuView, m: MemView, host: HostReply)
    ensures
        dispatch_out(v, Api::Bound(Named::RegClose), c, m, host) == reg_lift(v, c, close_out(v.reg_ctx(), v.wide(), c, m)),
{
    lemma_bound_serves(v, Api::Bound(Named::RegClose), c, m, host);
    reveal(bound_group);
    reveal(registry_service);
}

/// What serves the call.
pub proof fn bound_reg_delete_value(v: OsView, c: CpuView, m: MemView, host: HostReply, wide: bool)
    ensures
        dispatch_out(v, Api::Bound(Named::RegDeleteValue { wide }), c, m, host) == reg_lift(v, c, delete_value_out(v.reg_ctx(), v.wide(), c, m, wide)),
{
    lemma_bound_serves(v, Api::Bound(Named::RegDeleteValue { wide }), c, m, host);
    reveal(bound_group);
    reveal(registry_service);
}

/// What serves the call.
pub proof fn bound_reg_delete_key(v: OsView, c: CpuView, m: MemView, host: HostReply, ex: bool, wide: bool)
    ensures
        dispatch_out(v, Api::Bound(Named::RegDeleteKey { ex, wide }), c, m, host) == reg_lift(v, c, delete_key_out(v.reg_ctx(), v.wide(), c, m, wide)),
{
    lemma_bound_serves(v, Api::Bound(Named::RegDeleteKey { ex, wide }), c, m, host);
    reveal(bound_group);
    reveal(registry_service);
}

/// What serves the call.
pub proof fn bound_reg_enum_key(v: OsView, c: CpuView, m: MemView, host: HostReply, wide: bool)
    ensures
        dispatch_out(v, Api::Bound(Named::RegEnumKey { wide }), c, m, host) == reg_lift(v, c, enum_key_out(v.reg_ctx(), v.wide(), c, m, wide)),
{
    lemma_bound_serves(v, Api::Bound(Named::RegEnumKey { wide }), c, m, host);
    reveal(bound_group);
    reveal(registry_service);
}

/// What serves the call.
pub proof fn bound_reg_query_info(v: OsView, c: CpuView, m: MemView, host: HostReply)
    ensures
        dispatch_out(v, Api::Bound(Named::RegQueryInfo), c, m, host) == reg_lift(v, c, query_info_out(v.reg_ctx(), v.wide(), c, m)),
{
    lemma_bound_serves(v, Api::Bound(Named::RegQueryInfo), c, m, host);
    reveal(bound_group);
    reveal(registry_service);
}

/// What serves the call.
pub proof fn bound_post_message(v: OsView, c: CpuView, m: MemView, host: HostReply)
    ensures
        dispatch_out(v, Api::Bound(Named::PostMessage), c, m, host) == message_lift(v, c, m, post_out(v.sched, v.last_error, v.wide(), c, m)),
{
    lemma_bound_serves(v, Api::Bound(Named::PostMessage), c, m, host);
    reveal(bound_group);
    reveal(window_service);
}

/// What serves the call.
pub proof fn bound_translate_message(v: OsView, c: CpuView, m: MemView, host: HostReply)
    ensures
        dispatch_out(v, Api::Bound(Named::TranslateMessage), c, m, host) == translated_out(v, c, m),
{
    lemma_bound_serves(v, Api::Bound(Named::TranslateMessage), c, m, host);
    reveal(bound_group);
    reveal(window_service);
}

/// What serves the call.
pub proof fn bound_window_long(v: OsView, c: CpuView, m: MemView, host: HostReply, set: bool)
    ensures
        dispatch_out(v, Api::Bound(Named::WindowLong { set }), c, m, host) == window_lift(v, c, long_out(v.gdi, v.wide(), c, m, set)),
{
    lemma_bound_serves(v, Api::Bound(Named::WindowLong { set }), c, m, host);
    reveal(bound_group);
    reveal(window_service);
}

/// What serves the call.
pub proof fn bound_window_rect(v: OsView, c: CpuView, m: MemView, host: HostReply)
    ensures
        dispatch_out(v, Api::Bound(Named::WindowRect), c, m, host) == replied(v, c, rect_reply(v.gdi, v.wide(), c, m)),
{
    lemma_bound_serves(v, Api::Bound(Named::WindowRect), c, m, host);
    reveal(bound_group);
    reveal(window_service);
}

/// What serves the call.
pub proof fn bound_move_window(v: OsView, c: CpuView, m: MemView, host: HostReply)
    ensures
        dispatch_out(v, Api::Bound(Named::MoveWindow), c, m, host) == placed_out(v, c, m, move_args(v.wide(), c, m)),
{
    lemma_bound_serves(v, Api::Bound(Named::MoveWindow), c, m, host);
    reveal(bound_group);
    reveal(window_service);
}

/// What serves the call.
pub proof fn bound_invalidate(v: OsView, c: CpuView, m: MemView, host: HostReply)
    ensures
        dispatch_out(v, Api::Bound(Named::Invalidate), c, m, host) == invalidate_out(v, c, m),
{
    lemma_bound_serves(v, Api::Bound(Named::Invalidate), c, m, host);
    reveal(bound_group);
    reveal(input_service);
}

/// What serves the call.
pub proof fn bound_validate(v: OsView, c: CpuView, m: MemView, host: HostReply)
    ensures
        dispatch_out(v, Api::Bound(Named::Validate), c, m, host) == validate_out(v, c, m),
{
    lemma_bound_serves(v, Api::Bound(Named::Validate), c, m, host);
    reveal(bound_group);
    reveal(input_service);
}

/// What serves the call.
pub proof fn bound_virtual_protect(v: OsView, c: CpuView, m: MemView, host: HostReply)
    ensures
        dispatch_out(v, Api::Bound(Named::VirtualProtect), c, m, host) == mapped_out(v, c, vprotect_out(v.vm, v.last_error, v.wide(), c, m)),
{
    lemma_bound_serves(v, Api::Bound(Named::VirtualProtect), c, m, host);
    reveal(bound_group);
    reveal(system_service);
}

/// What serves the call.
pub proof fn bound_virtual_query(v: OsView, c: CpuView, m: MemView, host: HostReply)
    ensures
        dispatch_out(v, Api::Bound(Named::VirtualQuery), c, m, host) == replied(v, c, vquery_reply(v.vm, v.wide(), c, m)),
{
    lemma_bound_serves(v, Api::Bound(Named::VirtualQuery), c, m, host);
    reveal(bound_group);
    reveal(system_service);
}

/// What serves the call.
pub proof fn bound_find_next(v: OsView, c: CpuView, m: MemView, host: HostReply)
    ensures
        dispatch_out(v, Api::Bound(Named::FindNext), c, m, host) == find_lift(v, c, next_out(v, c, m)),
{
    lemma_bound_serves(v, Api::Bound(Named::FindNext), c, m, host);
    reveal(bound_group);
    reveal(system_service);
}

/// What serves the call.
pub proof fn bound_move_file(v: OsView, c: CpuView, m: MemView, host: HostReply, ex: bool, wide: bool)
    ensures
        dispatch_out(v, Api::Bound(Named::MoveFile { ex, wide }), c, m, host) == transferred_out(v, c, m, false, wide, host),
{
    lemma_bound_serves(v, Api::Bound(Named::MoveFile { ex, wide }), c, m, host);
    reveal(bound_group);
    reveal(system_service);
}

/// What serves the call.
pub proof fn bound_copy_file(v: OsView, c: CpuView, m: MemView, host: HostReply, wide: bool)
    ensures
        dispatch_out(v, Api::Bound(Named::CopyFile { wide }), c, m, host) == transferred_out(v, c, m, true, wide, host),
{
    lemma_bound_serves(v, Api::Bound(Named::CopyFile { wide }), c, m, host);
    reveal(bound_group);
    reveal(system_service);
}

/// What serves the call.
pub proof fn bound_file_time(v: OsView, c: CpuView, m: MemView, host: HostReply)
    ensures
        dispatch_out(v, Api::Bound(Named::FileTime), c, m, host) == replied(v, c, times_reply(v, c, m, host)),
{
    lemma_bound_serves(v, Api::Bound(Named::FileTime), c, m, host);
    reveal(bound_group);
    reveal(system_service);
}

/// What serves the call.
pub proof fn serves_set_dlg_item_text(v: OsView, c: CpuView, m: MemView, host: HostReply)
    ensures
        dispatch_out(v, Api::SetDlgItemTextW, c, m, host) == replied_os(c, set_item_out(v, c, m)),
{
    lemma_dialog_serves(v, Api::SetDlgItemTextW, c, m, host);
    reveal(dialog_group);
}

/// What serves the call.
pub proof fn serves_get_dlg_item_text(v: OsView, c: CpuView, m: MemView, host: HostReply)
    ensures
        dispatch_out(v, Api::GetDlgItemTextW, c, m, host) == replied(v, c, get_item_reply(v, c, m)),
{
    lemma_dialog_serves(v, Api::GetDlgItemTextW, c, m, host);
    reveal(dialog_group);
}

/// What serves the call.
pub proof fn serves_send_message_api(v: OsView, c: CpuView, m: MemView, host: HostReply)
    ensures
        dispatch_out(v, Api::SendMessageApi, c, m, host) == replied_os(c, send_out(v, c, m)),
{
    lemma_dialog_serves(v, Api::SendMessageApi, c, m, host);
    reveal(dialog_group);
}

/// What serves the call.
pub proof fn serves_set_window_text_api(v: OsView, c: CpuView, m: MemView, host: HostReply)
    ensures
        dispatch_out(v, Api::SetWindowTextApi, c, m, host) == replied_os(c, set_window_text_out(v, c, m)),
{
    lemma_dialog_serves(v, Api::SetWindowTextApi, c, m, host);
    reveal(dialog_group);
}

/// What serves the call.
pub proof fn serves_get_window_text_api(v: OsView, c: CpuView, m: MemView, host: HostReply)
    ensures
        dispatch_out(v, Api::GetWindowTextApi, c, m, host) == replied(v, c, get_window_text_reply(v, c, m)),
{
    lemma_dialog_serves(v, Api::GetWindowTextApi, c, m, host);
    reveal(dialog_group);
}

/// What serves the call.
pub proof fn serves_post_quit_message_api(v: OsView, c: CpuView, m: MemView, host: HostReply)
    ensures
        dispatch_out(v, Api::PostQuitMessageApi, c, m, host) == replied_os(c, quit_out(v, c, m)),
{
    lemma_dialog_serves(v, Api::PostQuitMessageApi, c, m, host);
    reveal(dialog_group);
}

/// What serves the call.
pub proof fn serves_end_dialog_api(v: OsView, c: CpuView, m: MemView, host: HostReply)
    ensures
        dispatch_out(v, Api::EndDialogApi, c, m, host) == replied_os(c, end_dialog_out(v, c, m)),
{
    lemma_dialog_serves(v, Api::EndDialogApi, c, m, host);
    reveal(dialog_group);
}

/// What serves the call.
pub proof fn serves_get_temp_path(v: OsView, c: CpuView, m: MemView, host: HostReply)
    ensures
        dispatch_out(v, Api::GetTempPathW, c, m, host) == replied(v, c, told_text(v.wide(), c, m, 0, true, "C:\\Temp\\"@)),
{
    lemma_files_serves(v, Api::GetTempPathW, c, m, host);
    reveal(files_group);
}

/// What serves the call.
pub proof fn serves_get_module_file_name(v: OsView, c: CpuView, m: MemView, host: HostReply)
    ensures
        dispatch_out(v, Api::GetModuleFileNameW, c, m, host) == replied(v, c, told_text(v.wide(), c, m, 1, false, v.cfg.module_path_w@)),
{
    lemma_files_serves(v, Api::GetModuleFileNameW, c, m, host);
    reveal(files_group);
}

/// What serves the call.
pub proof fn bound_set_focus(v: OsView, c: CpuView, m: MemView, host: HostReply)
    ensures
        dispatch_out(v, Api::Bound(Named::SetFocus), c, m, host) == focus_out(v, c, m),
{
    lemma_bound_serves(v, Api::Bound(Named::SetFocus), c, m, host);
    reveal(bound_group);
    reveal(input_service);
}

/// What serves the call.
pub proof fn bound_get_focus(v: OsView, c: CpuView, m: MemView, host: HostReply)
    ensures
        dispatch_out(v, Api::Bound(Named::GetFocus), c, m, host) == answered(v, c, m, v.gdi.focus_hwnd),
{
    lemma_bound_serves(v, Api::Bound(Named::GetFocus), c, m, host);
    reveal(bound_group);
    reveal(input_service);
}

/// What serves the call.
pub proof fn bound_set_capture(v: OsView, c: CpuView, m: MemView, host: HostReply)
    ensures
        dispatch_out(v, Api::Bound(Named::SetCapture), c, m, host) == capture_out(v, c, m),
{
    lemma_bound_serves(v, Api::Bound(Named::SetCapture), c, m, host);
    reveal(bound_group);
    reveal(input_service);
}

/// What serves the call.
pub proof fn bound_get_capture(v: OsView, c: CpuView, m: MemView, host: HostReply)
    ensures
        dispatch_out(v, Api::Bound(Named::GetCapture), c, m, host) == answered(v, c, m, v.gdi.capture_hwnd),
{
    lemma_bound_serves(v, Api::Bound(Named::GetCapture), c, m, host);
    reveal(bound_group);
    reveal(input_service);
}

/// What serves the call.
pub proof fn bound_release_capture(v: OsView, c: CpuView, m: MemView, host: HostReply)
    ensures
        dispatch_out(v, Api::Bound(Named::ReleaseCapture), c, m, host) == answered(
            OsView { gdi: GdiView { capture_hwnd: 0, ..v.gdi }, ..v },
            c,
            m,
            1,
        ),
{
    lemma_bound_serves(v, Api::Bound(Named::ReleaseCapture), c, m, host);
    reveal(bound_group);
    reveal(input_service);
}

/// What serves the call.
pub proof fn bound_set_prop(v: OsView, c: CpuView, m: MemView, host: HostReply, wide: bool)
    ensures
        dispatch_out(v, Api::Bound(Named::SetProp { wide }), c, m, host) == window_lift(v, c, set_prop_out(v.gdi, v.wide(), c, m, wide)),
{
    lemma_bound_serves(v, Api::Bound(Named::SetProp { wide }), c, m, host);
    reveal(bound_group);
    reveal(window_service);
}

/// What serves the call.
pub proof fn bound_get_prop(v: OsView, c: CpuView, m: MemView, host: HostReply, wide: bool)
    ensures
        dispatch_out(v, Api::Bound(Named::GetProp { wide }), c, m, host) == replied(v, c, get_prop_reply(v.gdi, v.wide(), c, m, wide)),
{
    lemma_bound_serves(v, Api::Bound(Named::GetProp { wide }), c, m, host);
    reveal(bound_group);
    reveal(window_service);
}

/// What serves the call.
pub proof fn bound_remove_prop(v: OsView, c: CpuView, m: MemView, host: HostReply, wide: bool)
    ensures
        dispatch_out(v, Api::Bound(Named::RemoveProp { wide }), c, m, host) == window_lift(v, c, remove_prop_out(v.gdi, v.wide(), c, m, wide)),
{
    lemma_bound_serves(v, Api::Bound(Named::RemoveProp { wide }), c, m, host);
    reveal(bound_group);
    reveal(window_service);
}

/// What serves the call.
pub proof fn bound_slot_alloc(v: OsView, c: CpuView, m: MemView, host: HostReply, fiber: bool)
    ensures
        dispatch_out(v, Api::Bound(Named::SlotAlloc { fiber }), c, m, host) == answered(v.slot_allocated(fiber), c, m, free_slot(v.used(fiber)) as u64),
{
    lemma_bound_serves(v, Api::Bound(Named::SlotAlloc { fiber }), c, m, host);
    reveal(bound_group);
    reveal(thread_service);
}

/// What serves the call.
pub proof fn bound_slot_free(v: OsView, c: CpuView, m: MemView, host: HostReply, fiber: bool)
    ensures
        dispatch_out(v, Api::Bound(Named::SlotFree { fiber }), c, m, host) == slot_free_out(v, c, m, fiber),
{
    lemma_bound_serves(v, Api::Bound(Named::SlotFree { fiber }), c, m, host);
    reveal(bound_group);
    reveal(thread_service);
}

/// What serves the call.
pub proof fn bound_terminate_thread(v: OsView, c: CpuView, m: MemView, host: HostReply)
    ensures
        dispatch_out(v, Api::Bound(Named::TerminateThread), c, m, host) == terminate_thread_out(v, c, m),
{
    lemma_bound_serves(v, Api::Bound(Named::TerminateThread), c, m, host);
    reveal(bound_group);
    reveal(thread_service);
}

/// What serves the call.
pub proof fn bound_post_thread_message(v: OsView, c: CpuView, m: MemView, host: HostReply)
    ensures
        dispatch_out(v, Api::Bound(Named::PostThreadMessage), c, m, host) == message_lift(v, c, m, post_thread_out(v.sched, v.last_error, v.wide(), c, m)),
{
    lemma_bound_serves(v, Api::Bound(Named::PostThreadMessage), c, m, host);
    reveal(bound_group);
    reveal(window_service);
}

/// What serves the call.
pub proof fn bound_full_path(v: OsView, c: CpuView, m: MemView, host: HostReply)
    ensures
        dispatch_out(v, Api::Bound(Named::FullPath), c, m, host) == replied(v, c, full_path_reply(v, c, m)),
{
    lemma_bound_serves(v, Api::Bound(Named::FullPath), c, m, host);
    reveal(bound_group);
    reveal(system_service);
}

/// What serves the call.
pub proof fn serves_register_class_api(v: OsView, c: CpuView, m: MemView, host: HostReply, ex: bool)
    ensures
        dispatch_out(v, Api::RegisterClassApi { ex }, c, m, host) == replied_os(c, register_out(v, c, m, ex)),
{
    lemma_window_serves(v, Api::RegisterClassApi { ex }, c, m, host);
    reveal(window_group);
}

/// What serves the call.
pub proof fn serves_create_window_ex_api(v: OsView, c: CpuView, m: MemView, host: HostReply)
    ensures
        dispatch_out(v, Api::CreateWindowExApi, c, m, host) == create_window_out(v, c, m),
{
    lemma_window_serves(v, Api::CreateWindowExApi, c, m, host);
    reveal(window_group);
}

/// What serves the call.
pub proof fn serves_get_dlg_item_api(v: OsView, c: CpuView, m: MemView, host: HostReply)
    ensures
        dispatch_out(v, Api::GetDlgItemApi, c, m, host) == replied(v, c, item_reply(v.wide(), c, m)),
{
    lemma_dialog_serves(v, Api::GetDlgItemApi, c, m, host);
    reveal(dialog_group);
}

/// What serves the call.
pub proof fn serves_sleep(v: OsView, c: CpuView, m: MemView, host: HostReply)
    ensures
        dispatch_out(v, Api::Sleep, c, m, host) == v.yielding(c, m, 0, 1),
{
    lemma_driver_serves(v, Api::Sleep, c, m, host);
    reveal(driver_group);
}

/// What serves the call.
pub proof fn bound_switch_to_thread(v: OsView, c: CpuView, m: MemView, host: HostReply)
    ensures
        dispatch_out(v, Api::Bound(Named::SwitchToThread), c, m, host) == v.yielding(
            c,
            m,
            if v.sched.next(v.objects) is Some {
                1
            } else {
                0
            },
            0,
        ),
{
    lemma_bound_serves(v, Api::Bound(Named::SwitchToThread), c, m, host);
    reveal(bound_group);
    reveal(thread_service);
}

/// What the call asks of the host.
pub proof fn asks_find_first(v: OsView, c: CpuView, m: MemView, ex: bool, wide: bool)
    ensures
        dispatch_asks(v, Api::Bound(Named::FindFirst { ex, wide }), c, m) == first_asks(v, c, m, wide),
{
    reveal(dispatch_asks);
    reveal(bound_asks);
}

/// What serves the call.
pub proof fn serves_set_text_color_api(v: OsView, c: CpuView, m: MemView, host: HostReply)
    ensures
        dispatch_out(v, Api::SetTextColorApi, c, m, host) == replied_os(c, text_color_out(v, c, m)),
{
    lemma_drawing_serves(v, Api::SetTextColorApi, c, m, host);
    reveal(drawing_group);
}

/// What serves the call.
pub proof fn serves_text_out_api(v: OsView, c: CpuView, m: MemView, host: HostReply)
    ensures
        dispatch_out(v, Api::TextOutApi, c, m, host) == replied_os(c, text_out_out(v, c, m)),
{
    lemma_drawing_serves(v, Api::TextOutApi, c, m, host);
    reveal(drawing_group);
}

/// What serves the call.
pub proof fn serves_select_object_api(v: OsView, c: CpuView, m: MemView, host: HostReply)
    ensures
        dispatch_out(v, Api::SelectObjectApi, c, m, host) == replied_os(c, select_out(v, c, m)),
{
    lemma_drawing_serves(v, Api::SelectObjectApi, c, m, host);
    reveal(drawing_group);
}

/// What serves the call.
pub proof fn bound_restore_dc(v: OsView, c: CpuView, m: MemView, host: HostReply)
    ensures
        dispatch_out(v, Api::Bound(Named::RestoreDc), c, m, host) == restore_out(v, c, m),
{
    lemma_bound_serves(v, Api::Bound(Named::RestoreDc), c, m, host);
    reveal(bound_group);
    reveal(input_service);
}

/// What serves the call.
pub proof fn bound_save_dc(v: OsView, c: CpuView, m: MemView, host: HostReply)
    ensures
        dispatch_out(v, Api::Bound(Named::SaveDc), c, m, host) == answered(
            OsView { gdi: GdiView { saved: v.gdi.saved.push(v.gdi.dc), ..v.gdi }, ..v },
            c,
            m,
            (v.gdi.saved.len() + 1) as u64,
        ),
{
    lemma_bound_serves(v, Api::Bound(Named::SaveDc), c, m, host);
    reveal(bound_group);
    reveal(input_service);
}

} // verus!
