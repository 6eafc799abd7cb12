//! The operating-system layer of a Windows executable emulator.
//!
//! Guest programs run on an interpreted CPU; everything they ask of Windows is
//! served here, against an explicit model of guest memory and of the guest's
//! register file. Host input and output stay outside: functions that need them
//! hand out a plan and take the host's answer back as a plain value.

pub mod api;
pub mod apiset;
pub mod boot;
pub mod bound;
pub mod call;
pub mod cb;
pub mod clock;
pub mod config;
pub mod console;
pub mod contracts;
pub mod cpu;
pub mod crt;
pub mod dialogs;
pub mod dispatch;
pub mod env;
pub mod exc;
pub mod files;
pub mod fs;
pub mod gdi;
pub mod gstr;
pub mod heap;
pub mod hive;
pub mod host;
pub mod kobj;
pub mod laws;
pub mod ldr;
pub mod loader;
pub mod mem;
pub mod msg;
pub mod named;
pub mod names;
pub mod nls;
pub mod ntreg;
pub mod ntvm;
pub mod order;
pub mod os;
pub mod path;
pub mod plugin;
pub mod process;
pub mod reg;
pub mod sched;
pub mod search;
pub mod section;
pub mod serve;
pub mod server;
pub mod ssdt;
pub mod sync;
pub mod syscall;
pub mod text;
pub mod thread;
pub mod thunk;
pub mod time;
pub mod ui;
pub mod unix;
pub mod unixlib;
pub mod util;
pub mod vm;
pub mod win;
pub mod windows;
pub mod wine;
