//! Guest calls made on behalf of a served call: queued callbacks and tables of
//! initializers.

use vstd::prelude::*;

use crate::call::Outcome;
use crate::cpu::{CpuState, CpuView, Reg};
use crate::mem::{
    at, below, ga, lemma_find_region, s32, s64, store32, Fault, MemView, Store, VirtualMemory,
};

verus! {

/// What a user did in the window.
#[derive(Clone, Copy, Debug, PartialEq, Eq, Structural)]
pub enum GuiEvent {
    /// A button or menu command.
    Command(u32),
    MouseDown(i32, i32),
    Close,
}

/// The result of a dialog that was confirmed.
pub const IDOK: u64 = 1;

/// The result of a dialog that was cancelled.
pub const IDCANCEL: u64 = 2;

pub const WM_INITDIALOG: u64 = 0x0110;

pub const WM_COMMAND: u64 = 0x0111;

/// One guest call to make.
pub struct Callback {
    pub func: u64,
    pub args: Vec<u64>,
}

/// One guest call as mathematics.
pub struct CallView {
    pub func: u64,
    pub args: Seq<u64>,
}

impl View for Callback {
    type V = CallView;

    open spec fn view(&self) -> CallView {
        CallView { func: self.func, args: self.args@ }
    }
}

/// The views of a list of calls.
pub open spec fn call_views(s: Seq<Callback>) -> Seq<CallView> {
    Seq::new(s.len(), |i: int| s[i]@)
}

/// A queue of guest calls in progress.
pub struct CbFrame {
    pub remaining: Vec<Callback>,
    /// Where the served call was made from.
    pub ret_addr: u64,
    /// The stack pointer there.
    pub final_rsp: u64,
    /// What the served call answers with.
    pub result: u64,
    /// Whether a modal dialog goes on after the queue.
    pub modal: bool,
}

/// A queue of guest calls as mathematics.
#[verifier::ext_equal]
pub struct FrameView {
    pub remaining: Seq<CallView>,
    pub ret_addr: u64,
    pub final_rsp: u64,
    pub result: u64,
    pub modal: bool,
}

impl View for CbFrame {
    type V = FrameView;

    open spec fn view(&self) -> FrameView {
        FrameView {
            remaining: call_views(self.remaining@),
            ret_addr: self.ret_addr,
            final_rsp: self.final_rsp,
            result: self.result,
            modal: self.modal,
        }
    }
}

/// The views of a stack of queues.
pub open spec fn frame_views(s: Seq<CbFrame>) -> Seq<FrameView> {
    Seq::new(s.len(), |i: int| s[i]@)
}

/// A register file and memory after a guest call was set up, and the fault that
/// kept it from being.
pub struct Framed {
    pub cpu: CpuView,
    pub mem: MemView,
    pub fault: Option<Fault>,
}

/// The address aligned down to 16 bytes.
pub open spec fn align16(a: u64) -> u64 {
    (a - a % 16) as u64
}

/// The first four arguments in their registers.
pub open spec fn with_args(c: CpuView, args: Seq<u64>) -> CpuView {
    let c = if args.len() > 0 {
        c.with_reg(Reg::Rcx, args[0])
    } else {
        c
    };
    let c = if args.len() > 1 {
        c.with_reg(Reg::Rdx, args[1])
    } else {
        c
    };
    let c = if args.len() > 2 {
        c.with_reg(Reg::R8, args[2])
    } else {
        c
    };
    if args.len() > 3 {
        c.with_reg(Reg::R9, args[3])
    } else {
        c
    }
}

/// The pushes of a 32-bit call below `top`: the arguments from the last to the
/// first, then the return address.
pub open spec fn push_table(top: u64, args: Seq<u64>, ret: u64) -> Seq<Store> {
    Seq::new(
        args.len() + 1,
        |i: int|
            s32(
                ga(top, -4 * (i + 1)),
                if i < args.len() {
                    args[args.len() - 1 - i] as u32
                } else {
                    ret as u32
                },
            ),
    )
}

/// A call of `func` with `args` below `base`, which returns to `ret`. In 64-bit
/// code four arguments go in registers, above which lie 32 bytes of shadow
/// space; in 32-bit code all are pushed.
pub open spec fn framed(
    is_64bit: bool,
    c: CpuView,
    m: MemView,
    func: u64,
    args: Seq<u64>,
    ret: u64,
    base: u64,
) -> Framed {
    let top = align16(base);
    if is_64bit {
        let regs = with_args(c, args);
        let sp = ga(top, -0x28);
        let s = m.store(s64(sp, ret));
        Framed {
            cpu: if s.fault is None {
                regs.with_rsp(sp).with_rip(func)
            } else {
                regs
            },
            mem: s.mem,
            fault: s.fault,
        }
    } else {
        let s = m.store_all(push_table(top, args, ret));
        Framed {
            cpu: if s.fault is None {
                c.with_rsp(ga(top, -4 * (args.len() + 1))).with_rip(func)
            } else {
                c
            },
            mem: s.mem,
            fault: s.fault,
        }
    }
}

/// The result of a setup as the outcome of a served call.
pub open spec fn resumed_or(f: Option<Fault>) -> Result<Outcome, Fault> {
    match f {
        None => Ok(Outcome::Resume),
        Some(f) => Err(f),
    }
}

/// Set up a guest call to `func` with `args` that returns to `ret`.
pub fn setup_call_args(
    is_64bit: bool,
    cpu: &mut CpuState,
    mem: &mut VirtualMemory,
    func: u64,
    args: &Vec<u64>,
    ret: u64,
    base: u64,
) -> (r: Result<(), Fault>)
    ensures
        ({
            let f = framed(is_64bit, old(cpu)@, old(mem)@, func, args@, ret, base);
            &&& final(cpu)@ == f.cpu
            &&& final(mem)@ == f.mem
            &&& r == crate::mem::fault_result(f.fault)
        }),
{
    let top: u64 = base - base % 16;
    if is_64bit {
        if args.len() > 0 {
            cpu.set_reg(Reg::Rcx, args[0]);
        }
        if args.len() > 1 {
            cpu.set_reg(Reg::Rdx, args[1]);
        }
        if args.len() > 2 {
            cpu.set_reg(Reg::R8, args[2]);
        }
        if args.len() > 3 {
            cpu.set_reg(Reg::R9, args[3]);
        }
        let sp: u64 = below(top, 0x28);
        match mem.write_u64(sp, ret) {
            Ok(_) => {},
            Err(f) => {
                return Err(f);
            },
        }
        cpu.set_rsp(sp);
    } else {
        let mut t: Vec<Store> = Vec::new();
        let n: usize = args.len();
        let mut i: usize = 0;
        let mut sp: u64 = top;
        assert(ga(top, 0) == top);
        while i < n
            invariant
                i <= n == args.len(),
                sp == ga(top, -4 * i),
                t.len() == i,
                forall|j: int|
                    0 <= j < i ==> #[trigger] t@[j] == s32(
                        ga(top, -4 * (j + 1)),
                        args@[n - 1 - j] as u32,
                    ),
            decreases n - i,
        {
            proof {
                lemma_ga_step(top, -4 * i, -4);
            }
            sp = below(sp, 4);
            t.push(store32(sp, args[n - 1 - i] as u32));
            i = i + 1;
        }
        proof {
            lemma_ga_step(top, -4 * i, -4);
        }
        sp = below(sp, 4);
        t.push(store32(sp, ret as u32));
        assert(t@ =~= push_table(top, args@, ret));
        match mem.store_all(&t) {
            Ok(_) => {},
            Err(f) => {
                return Err(f);
            },
        }
        cpu.set_rsp(sp);
    }
    cpu.rip = func;
    Ok(())
}

/// Two steps from an address are one.
pub proof fn lemma_ga_step(a: u64, x: int, y: int)
    ensures
        ga(ga(a, x), y) == ga(a, x + y),
{
    let m = 0x1_0000_0000_0000_0000int;
    vstd::arithmetic::div_mod::lemma_add_mod_noop(a + x, y, m);
    vstd::arithmetic::div_mod::lemma_add_mod_noop((a + x) % m, y, m);
    vstd::arithmetic::div_mod::lemma_mod_twice(a + x, m);
}

/// The accumulator set to a result: all of it, or its low half.
pub open spec fn with_result(is_64bit: bool, c: CpuView, v: u64) -> CpuView {
    c.with_reg(
        Reg::Rax,
        if is_64bit {
            v
        } else {
            (v as u32) as u64
        },
    )
}

/// Set the accumulator to a result.
pub fn set_result(is_64bit: bool, cpu: &mut CpuState, v: u64)
    ensures
        final(cpu)@ == with_result(is_64bit, old(cpu)@, v),
{
    if is_64bit {
        cpu.set_reg(Reg::Rax, v);
    } else {
        cpu.set_reg(Reg::Rax, (v as u32) as u64);
    }
}

/// The size of a return address.
pub open spec fn slot(is_64bit: bool) -> int {
    if is_64bit {
        8
    } else {
        4
    }
}

/// The dialog that is shown.
#[derive(Clone, Copy, Debug, PartialEq, Eq, Structural)]
pub struct Dialog {
    pub dlgproc: u64,
    pub hwnd: u64,
    /// What `EndDialog` ended a modal dialog with.
    pub result: Option<u64>,
}

/// The arguments of a command message.
pub open spec fn command_args(hwnd: u64, id: u32) -> Seq<u64> {
    seq![hwnd, WM_COMMAND, id as u64, 0]
}

/// The callbacks in progress and the thunk that each returns to.
pub struct Callbacks {
    pub driver: u64,
    pub stack: Vec<CbFrame>,
}

/// Everything that a step of the callback machinery decides.
pub struct Advanced {
    pub stack: Seq<FrameView>,
    pub dialog: Dialog,
    pub cpu: CpuView,
    pub mem: MemView,
    pub r: Result<Outcome, Fault>,
}

/// What queueing `calls` leads to: the first is set up; once all have returned,
/// the served call answers with `result`.
pub open spec fn invoked(
    driver: u64,
    stack: Seq<FrameView>,
    is_64bit: bool,
    c: CpuView,
    m: MemView,
    calls: Seq<CallView>,
    result: u64,
    argc: u32,
    modal: bool,
) -> (Seq<FrameView>, CpuView, MemView, Result<Outcome, Fault>) {
    if calls.len() == 0 {
        (stack, c, m, Ok(Outcome::Return(result)))
    } else {
        match m.rptr(is_64bit, c.rsp()) {
            Err(f) => (stack, c, m, Err(f)),
            Ok(ret_addr) => {
                let frame = FrameView {
                    remaining: calls.skip(1),
                    ret_addr,
                    final_rsp: if is_64bit {
                        ga(c.rsp(), 8)
                    } else {
                        ga(c.rsp(), 4 + argc * 4)
                    },
                    result,
                    modal,
                };
                let f = framed(
                    is_64bit,
                    c,
                    m,
                    calls[0].func,
                    calls[0].args,
                    driver,
                    c.rsp(),
                );
                (stack.push(frame), f.cpu, f.mem, resumed_or(f.fault))
            },
        }
    }
}

/// What follows when a callback has returned: the next queued call; then, in a
/// modal dialog, the commands of its user until it is ended or closed; then the
/// return to the caller of the served call, or the end of the process where
/// that is pending and nothing else is in progress.
pub open spec fn advanced(
    driver: u64,
    stack: Seq<FrameView>,
    dialog: Dialog,
    exiting: Option<i32>,
    event: Option<GuiEvent>,
    is_64bit: bool,
    c: CpuView,
    m: MemView,
) -> Advanced {
    let f = stack.last();
    let base = ga(f.final_rsp, -slot(is_64bit));
    if f.remaining.len() > 0 {
        let n = f.remaining[0];
        let g = framed(is_64bit, c, m, n.func, n.args, driver, base);
        Advanced {
            stack: stack.drop_last().push(FrameView { remaining: f.remaining.skip(1), ..f }),
            dialog,
            cpu: g.cpu,
            mem: g.mem,
            r: resumed_or(g.fault),
        }
    } else if f.modal && dialog.result is None && event is Some && event->0 is Command {
        let args = command_args(dialog.hwnd, event->0->Command_0);
        let g = framed(is_64bit, c, m, dialog.dlgproc, args, driver, base);
        Advanced { stack, dialog, cpu: g.cpu, mem: g.mem, r: resumed_or(g.fault) }
    } else {
        let result = if !f.modal {
            f.result
        } else {
            match dialog.result {
                Some(v) => v,
                None => IDCANCEL,
            }
        };
        let rest = stack.drop_last();
        let dialog = if f.modal {
            Dialog { result: None, ..dialog }
        } else {
            dialog
        };
        if exiting is Some && rest.len() == 0 {
            Advanced { stack: rest, dialog, cpu: c, mem: m, r: Ok(Outcome::Exit(exiting->0)) }
        } else {
            Advanced {
                stack: rest,
                dialog,
                cpu: with_result(
                    is_64bit,
                    c.with_rsp(f.final_rsp).with_rip(f.ret_addr),
                    result,
                ),
                mem: m,
                r: Ok(Outcome::Resume),
            }
        }
    }
}

/// Whether a returned callback needs the next event of the window: only in a
/// modal dialog with an empty queue that has not ended.
pub open spec fn wants_event(stack: Seq<FrameView>, dialog: Dialog) -> bool {
    stack.len() > 0 && stack.last().remaining.len() == 0 && stack.last().modal
        && dialog.result is None
}

impl Callbacks {
    /// The queues in progress.
    pub open spec fn frames(self) -> Seq<FrameView> {
        frame_views(self.stack@)
    }

    /// Make `calls` one after the other, then answer the served call with
    /// `result`; `argc` is what it pops in 32-bit code.
    pub fn invoke_callbacks(
        &mut self,
        is_64bit: bool,
        cpu: &mut CpuState,
        mem: &mut VirtualMemory,
        mut calls: Vec<Callback>,
        result: u64,
        argc: u32,
        modal: bool,
    ) -> (r: Result<Outcome, Fault>)
        ensures
            final(self).driver == old(self).driver,
            (final(self).frames(), final(cpu)@, final(mem)@, r) == invoked(
                old(self).driver,
                old(self).frames(),
                is_64bit,
                old(cpu)@,
                old(mem)@,
                call_views(calls@),
                result,
                argc,
                modal,
            ),
    {
        let ghost all = call_views(calls@);
        if calls.len() == 0 {
            return Ok(Outcome::Return(result));
        }
        let ghost frames = self.frames();
        let sp: u64 = cpu.rsp();
        let ret_addr: u64 = match mem.read_ptr(is_64bit, sp) {
            Ok(a) => a,
            Err(f) => {
                return Err(f);
            },
        };
        let final_rsp: u64 = if is_64bit {
            at(sp, 8)
        } else {
            at(sp, 4 + argc as u64 * 4)
        };
        let call = calls.remove(0);
        proof {
            assert(call_views(calls@) =~= all.skip(1));
            assert(call@ == all[0]);
        }
        let frame = CbFrame { remaining: calls, ret_addr, final_rsp, result, modal };
        let ghost fv = frame@;
        self.stack.push(frame);
        assert(self.frames() =~= frames.push(fv));
        match setup_call_args(is_64bit, cpu, mem, call.func, &call.args, self.driver, sp) {
            Ok(_) => Ok(Outcome::Resume),
            Err(f) => Err(f),
        }
    }

    /// Whether the next step needs an event of the window.
    pub fn wants_event(&self, dialog: &Dialog) -> (r: bool)
        ensures
            r == wants_event(self.frames(), *dialog),
    {
        let n: usize = self.stack.len();
        if n == 0 {
            return false;
        }
        let f = &self.stack[n - 1];
        assert(self.frames().last() == f@);
        f.remaining.len() == 0 && f.modal && dialog.result.is_none()
    }

    /// Go on after a callback has returned.
    pub fn cb_advance(
        &mut self,
        is_64bit: bool,
        cpu: &mut CpuState,
        mem: &mut VirtualMemory,
        dialog: &mut Dialog,
        exiting: Option<i32>,
        event: Option<GuiEvent>,
    ) -> (r: Result<Outcome, Fault>)
        requires
            old(self).stack.len() > 0,
        ensures
            final(self).driver == old(self).driver,
            ({
                let a = advanced(
                    old(self).driver,
                    old(self).frames(),
                    *old(dialog),
                    exiting,
                    event,
                    is_64bit,
                    old(cpu)@,
                    old(mem)@,
                );
                &&& final(self).frames() == a.stack
                &&& *final(dialog) == a.dialog
                &&& final(cpu)@ == a.cpu
                &&& final(mem)@ == a.mem
                &&& r == a.r
            }),
    {
        let n: usize = self.stack.len();
        let ghost frames = self.frames();
        let mut f = match self.stack.pop() {
            Some(f) => f,
            None => {
                return Ok(Outcome::Resume);
            },
        };
        let ghost fv = f@;
        proof {
            assert(frames.last() == fv);
            assert(self.frames() =~= frames.drop_last());
        }
        let base: u64 = below(
            f.final_rsp,
            if is_64bit {
                8
            } else {
                4
            },
        );
        if f.remaining.len() > 0 {
            let call = f.remaining.remove(0);
            proof {
                assert(call_views(f.remaining@) =~= fv.remaining.skip(1));
                assert(call@ == fv.remaining[0]);
            }
            let ghost gv = f@;
            self.stack.push(f);
            assert(self.frames() =~= frames.drop_last().push(gv));
            return match setup_call_args(
                is_64bit,
                cpu,
                mem,
                call.func,
                &call.args,
                self.driver,
                base,
            ) {
                Ok(_) => Ok(Outcome::Resume),
                Err(e) => Err(e),
            };
        }
        if f.modal && dialog.result.is_none() {
            if let Some(GuiEvent::Command(id)) = event {
                let args: Vec<u64> = vec![dialog.hwnd, WM_COMMAND, id as u64, 0];
                assert(args@ =~= command_args(dialog.hwnd, id));
                self.stack.push(f);
                assert(self.frames() =~= frames);
                return match setup_call_args(
                    is_64bit,
                    cpu,
                    mem,
                    dialog.dlgproc,
                    &args,
                    self.driver,
                    base,
                ) {
                    Ok(_) => Ok(Outcome::Resume),
                    Err(e) => Err(e),
                };
            }
        }
        let result: u64 = if f.modal {
            match dialog.result {
                Some(v) => v,
                None => IDCANCEL,
            }
        } else {
            f.result
        };
        if f.modal {
            dialog.result = None;
        }
        if n == 1 {
            if let Some(code) = exiting {
                return Ok(Outcome::Exit(code));
            }
        }
        cpu.set_rsp(f.final_rsp);
        cpu.rip = f.ret_addr;
        set_result(is_64bit, cpu, result);
        Ok(Outcome::Resume)
    }
}

// ---- tables of initializers -------------------------------------------------

/// A table of initializers in progress.
pub struct InittermFrame {
    pub remaining: Vec<u64>,
    pub ret: u64,
    pub saved_rsp: u64,
}

/// A table of initializers as mathematics.
#[verifier::ext_equal]
pub struct InittermView {
    pub remaining: Seq<u64>,
    pub ret: u64,
    pub saved_rsp: u64,
}

impl View for InittermFrame {
    type V = InittermView;

    open spec fn view(&self) -> InittermView {
        InittermView { remaining: self.remaining@, ret: self.ret, saved_rsp: self.saved_rsp }
    }
}

/// The functions of the table `[p, last)` that are not null.
pub open spec fn table_fns(m: MemView, p: int, last: u64) -> Result<Seq<u64>, Fault>
    decreases last + 8 - p,
{
    if p >= last {
        Ok(Seq::empty())
    } else {
        match m.r64(p as u64) {
            Err(f) => Err(f),
            Ok(v) => match table_fns(m, p + 8, last) {
                Err(f) => Err(f),
                Ok(rest) => Ok(
                    if v == 0 {
                        rest
                    } else {
                        seq![v] + rest
                    },
                ),
            },
        }
    }
}

/// The initializers in progress and the thunk that each returns to.
pub struct Initializers {
    pub driver: u64,
    pub stack: Vec<InittermFrame>,
}

/// What `_initterm(first, last)` leads to: its first function is set up, or
/// there is none and it answers 0.
pub open spec fn initterm_started(
    driver: u64,
    stack: Seq<InittermView>,
    c: CpuView,
    m: MemView,
    first: u64,
    last: u64,
) -> (Seq<InittermView>, CpuView, MemView, Result<Outcome, Fault>) {
    match m.r64(c.rsp()) {
        Err(f) => (stack, c, m, Err(f)),
        Ok(ret) => match table_fns(m, first as int, last) {
            Err(f) => (stack, c, m, Err(f)),
            Ok(fns) => if fns.len() == 0 {
                (stack, c, m, Ok(Outcome::Return(0)))
            } else {
                let frame = InittermView { remaining: fns.skip(1), ret, saved_rsp: c.rsp() };
                let f = framed(true, c, m, fns[0], Seq::empty(), driver, c.rsp());
                (stack.push(frame), f.cpu, f.mem, resumed_or(f.fault))
            },
        },
    }
}

/// What follows when an initializer has returned: the next one, or the return
/// to the caller of `_initterm` with 0.
pub open spec fn initterm_stepped(
    driver: u64,
    stack: Seq<InittermView>,
    c: CpuView,
    m: MemView,
) -> (Seq<InittermView>, CpuView, MemView, Result<Outcome, Fault>) {
    let f = stack.last();
    if f.remaining.len() > 0 {
        let g = framed(true, c, m, f.remaining[0], Seq::empty(), driver, f.saved_rsp);
        (
            stack.drop_last().push(InittermView { remaining: f.remaining.skip(1), ..f }),
            g.cpu,
            g.mem,
            resumed_or(g.fault),
        )
    } else {
        (
            stack.drop_last(),
            c.with_rsp(ga(f.saved_rsp, 8)).with_rip(f.ret).with_reg(Reg::Rax, 0),
            m,
            Ok(Outcome::Resume),
        )
    }
}

impl Initializers {
    /// The tables in progress.
    pub open spec fn frames(self) -> Seq<InittermView> {
        Seq::new(self.stack@.len(), |i: int| self.stack@[i]@)
    }

    /// Call each function of the table `[first, last)` that is not null.
    pub fn initterm(
        &mut self,
        cpu: &mut CpuState,
        mem: &mut VirtualMemory,
        first: u64,
        last: u64,
    ) -> (r: Result<Outcome, Fault>)
        ensures
            final(self).driver == old(self).driver,
            (final(self).frames(), final(cpu)@, final(mem)@, r) == initterm_started(
                old(self).driver,
                old(self).frames(),
                old(cpu)@,
                old(mem)@,
                first,
                last,
            ),
    {
        let sp: u64 = cpu.rsp();
        let ret: u64 = match mem.read_u64(sp) {
            Ok(v) => v,
            Err(f) => {
                return Err(f);
            },
        };
        mem.ascends();
        let mut fns: Vec<u64> = Vec::new();
        let mut p: u64 = first;
        let ghost all = table_fns(mem@, first as int, last);
        proof {
            match all {
                Ok(rest) => {
                    assert(fns@ + rest =~= rest);
                },
                Err(_) => {},
            }
        }
        while p < last
            invariant
                mem@.wf(),
                mem@ == old(mem)@,
                cpu@ == old(cpu)@,
                *self == *old(self),
                sp == cpu@.rsp(),
                mem@.r64(sp) == Ok::<u64, Fault>(ret),
                all == table_fns(mem@, first as int, last),
                all == (match table_fns(mem@, p as int, last) {
                    Err(f) => Err::<Seq<u64>, Fault>(f),
                    Ok(rest) => Ok::<Seq<u64>, Fault>(fns@ + rest),
                }),
            decreases last + 8 - p,
        {
            match mem.read_u64(p) {
                Err(f) => {
                    return Err(f);
                },
                Ok(v) => {
                    let ghost before = fns@;
                    if v != 0 {
                        fns.push(v);
                    }
                    proof {
                        lemma_find_region(mem@.regions, p as int);
                        match table_fns(mem@, p + 8, last) {
                            Ok(rest) => {
                                assert(before + (seq![v] + rest) =~= before.push(v) + rest);
                            },
                            Err(_) => {},
                        }
                    }
                    p = p + 8;
                },
            }
        }
        assert(fns@ + Seq::<u64>::empty() =~= fns@);
        if fns.len() == 0 {
            return Ok(Outcome::Return(0));
        }
        let ghost frames = self.frames();
        let ghost list = fns@;
        let func: u64 = fns.remove(0);
        assert(fns@ =~= list.skip(1));
        let frame = InittermFrame { remaining: fns, ret, saved_rsp: sp };
        let ghost fv = frame@;
        self.stack.push(frame);
        assert(self.frames() =~= frames.push(fv));
        let none: Vec<u64> = Vec::new();
        assert(none@ =~= Seq::empty());
        match setup_call_args(true, cpu, mem, func, &none, self.driver, sp) {
            Ok(_) => Ok(Outcome::Resume),
            Err(f) => Err(f),
        }
    }

    /// Go on after an initializer has returned.
    pub fn initterm_advance(&mut self, cpu: &mut CpuState, mem: &mut VirtualMemory) -> (r: Result<
        Outcome,
        Fault,
    >)
        requires
            old(self).stack.len() > 0,
        ensures
            final(self).driver == old(self).driver,
            (final(self).frames(), final(cpu)@, final(mem)@, r) == initterm_stepped(
                old(self).driver,
                old(self).frames(),
                old(cpu)@,
                old(mem)@,
            ),
    {
        let ghost frames = self.frames();
        let mut f = match self.stack.pop() {
            Some(f) => f,
            None => {
                return Ok(Outcome::Resume);
            },
        };
        let ghost fv = f@;
        proof {
            assert(frames.last() == fv);
            assert(self.frames() =~= frames.drop_last());
        }
        if f.remaining.len() > 0 {
            let func: u64 = f.remaining.remove(0);
            let sp: u64 = f.saved_rsp;
            assert(f.remaining@ =~= fv.remaining.skip(1));
            let ghost gv = f@;
            self.stack.push(f);
            assert(self.frames() =~= frames.drop_last().push(gv));
            let none: Vec<u64> = Vec::new();
            assert(none@ =~= Seq::empty());
            return match setup_call_args(true, cpu, mem, func, &none, self.driver, sp) {
                Ok(_) => Ok(Outcome::Resume),
                Err(e) => Err(e),
            };
        }
        cpu.set_rsp(at(f.saved_rsp, 8));
        cpu.rip = f.ret;
        cpu.set_reg(Reg::Rax, 0);
        Ok(Outcome::Resume)
    }
}

/// A 64-bit guest call starts as if a call instruction had led there: with its first
/// four arguments in registers, and a stack pointer that is 8 behind a multiple of
/// 16, above which the shadow space lies.
pub proof fn lemma_call_frame(c: CpuView, m: MemView, func: u64, args: Seq<u64>, ret: u64, base: u64)
    requires
        c.gpr.len() == 16,
        framed(true, c, m, func, args, ret, base).fault is None,
    ensures
        ({
            let d = framed(true, c, m, func, args, ret, base).cpu;
            &&& d.rip == func
            &&& d.rsp() % 16 == 8
            &&& base >= 0x40 ==> d.rsp() + 0x28 <= base
            &&& args.len() > 0 ==> d.reg(Reg::Rcx) == args[0]
            &&& args.len() > 1 ==> d.reg(Reg::Rdx) == args[1]
            &&& args.len() > 2 ==> d.reg(Reg::R8) == args[2]
            &&& args.len() > 3 ==> d.reg(Reg::R9) == args[3]
        }),
{
}

/// The queues in progress after a callback has come back `k` times, with the
/// registers and the memory of `back`.
pub open spec fn queues_after(
    driver: u64,
    stack: Seq<FrameView>,
    dialog: Dialog,
    is_64bit: bool,
    back: Seq<(CpuView, MemView)>,
    k: nat,
) -> Seq<FrameView>
    decreases k,
{
    if k == 0 {
        stack
    } else {
        let j = (k - 1) as nat;
        advanced(
            driver,
            queues_after(driver, stack, dialog, is_64bit, back, j),
            dialog,
            None,
            None,
            is_64bit,
            back[j as int].0,
            back[j as int].1,
        ).stack
    }
}

/// The calls of a queue that are left once some have come back.
proof fn lemma_queues_after(
    driver: u64,
    stack: Seq<FrameView>,
    dialog: Dialog,
    is_64bit: bool,
    f: FrameView,
    calls: Seq<CallView>,
    back: Seq<(CpuView, MemView)>,
    k: nat,
)
    requires
        k < calls.len(),
        f.remaining == calls.skip(1),
    ensures
        queues_after(driver, stack.push(f), dialog, is_64bit, back, k) == stack.push(
            (FrameView { remaining: calls.skip(k as int + 1), ..f }),
        ),
    decreases k,
{
    if k > 0 {
        lemma_queues_after(driver, stack, dialog, is_64bit, f, calls, back, (k - 1) as nat);
        let g = FrameView { remaining: calls.skip(k as int), ..f };
        assert(g.remaining.skip(1) =~= calls.skip(k as int + 1));
        assert(stack.push(g).drop_last() =~= stack);
    }
}

/// The callbacks of a served call run one after the other, in order and whatever
/// each does to registers and memory. When the last one has come back, the caller
/// goes on as if the served call had returned `result`.
pub proof fn lemma_callbacks_in_order(
    driver: u64,
    stack: Seq<FrameView>,
    dialog: Dialog,
    is_64bit: bool,
    c: CpuView,
    m: MemView,
    calls: Seq<CallView>,
    result: u64,
    argc: u32,
    back: Seq<(CpuView, MemView)>,
    k: nat,
)
    requires
        k < calls.len(),
        m.rptr(is_64bit, c.rsp()) is Ok,
        back[k as int].0.gpr.len() == 16,
    ensures
        ({
            let o = invoked(driver, stack, is_64bit, c, m, calls, result, argc, false);
            let a = advanced(
                driver,
                queues_after(driver, o.0, dialog, is_64bit, back, k),
                dialog,
                None,
                None,
                is_64bit,
                back[k as int].0,
                back[k as int].1,
            );
            &&& o.3 is Ok ==> o.1.rip == calls[0].func
            &&& k + 1 < calls.len() && a.r is Ok ==> a.cpu.rip == calls[k as int + 1].func
            &&& k + 1 == calls.len() ==> {
                &&& a.stack == stack
                &&& a.mem == back[k as int].1
                &&& a.r == Ok::<Outcome, Fault>(Outcome::Resume)
                &&& m.rptr(is_64bit, c.rsp()) == Ok::<u64, Fault>(a.cpu.rip)
                &&& a.cpu.rsp() == (if is_64bit {
                    ga(c.rsp(), 8)
                } else {
                    ga(c.rsp(), 4 + argc * 4)
                })
                &&& a.cpu.reg(Reg::Rax) == (if is_64bit {
                    result
                } else {
                    (result as u32) as u64
                })
            }
        }),
{
    let o = invoked(driver, stack, is_64bit, c, m, calls, result, argc, false);
    let f = o.0.last();
    assert(o.0 =~= stack.push(f));
    lemma_queues_after(driver, stack, dialog, is_64bit, f, calls, back, k);
    let g = FrameView { remaining: calls.skip(k as int + 1), ..f };
    assert(stack.push(g).drop_last() =~= stack);
}

/// The tables in progress after an initializer has come back `k` times, with the
/// registers and the memory of `back`.
pub open spec fn tables_after(
    driver: u64,
    stack: Seq<InittermView>,
    back: Seq<(CpuView, MemView)>,
    k: nat,
) -> Seq<InittermView>
    decreases k,
{
    if k == 0 {
        stack
    } else {
        let j = (k - 1) as nat;
        initterm_stepped(
            driver,
            tables_after(driver, stack, back, j),
            back[j as int].0,
            back[j as int].1,
        ).0
    }
}

/// The functions of a table that are left once some have come back.
proof fn lemma_tables_after(
    driver: u64,
    stack: Seq<InittermView>,
    fns: Seq<u64>,
    ret: u64,
    saved_rsp: u64,
    back: Seq<(CpuView, MemView)>,
    k: nat,
)
    requires
        k < fns.len(),
    ensures
        tables_after(
            driver,
            stack.push(InittermView { remaining: fns.skip(1), ret, saved_rsp }),
            back,
            k,
        ) == stack.push(InittermView { remaining: fns.skip(k as int + 1), ret, saved_rsp }),
    decreases k,
{
    if k > 0 {
        lemma_tables_after(driver, stack, fns, ret, saved_rsp, back, (k - 1) as nat);
        let f = InittermView { remaining: fns.skip(k as int), ret, saved_rsp };
        assert(f.remaining.skip(1) =~= fns.skip(k as int + 1));
        assert(stack.push(f).drop_last() =~= stack);
    }
}

/// `_initterm` calls the functions of its table that are not null one after the
/// other, in the order of the table and whatever each does to registers and memory.
/// When the last one has come back, it returns to its caller with 0.
pub proof fn lemma_initializers_in_order(
    driver: u64,
    stack: Seq<InittermView>,
    c: CpuView,
    m: MemView,
    first: u64,
    last: u64,
    back: Seq<(CpuView, MemView)>,
    k: nat,
)
    requires
        m.r64(c.rsp()) is Ok,
        table_fns(m, first as int, last) is Ok,
        k < table_fns(m, first as int, last)->Ok_0.len(),
        back[k as int].0.gpr.len() == 16,
    ensures
        ({
            let fns = table_fns(m, first as int, last)->Ok_0;
            let s = initterm_started(driver, stack, c, m, first, last);
            let o = initterm_stepped(
                driver,
                tables_after(driver, s.0, back, k),
                back[k as int].0,
                back[k as int].1,
            );
            &&& s.3 is Ok ==> s.1.rip == fns[0]
            &&& k + 1 < fns.len() && o.3 is Ok ==> o.1.rip == fns[k as int + 1]
            &&& k + 1 == fns.len() ==> {
                &&& o.0 == stack
                &&& o.2 == back[k as int].1
                &&& m.r64(c.rsp()) == Ok::<u64, Fault>(o.1.rip)
                &&& o.1.rsp() == ga(c.rsp(), 8)
                &&& o.1.reg(Reg::Rax) == 0
            }
        }),
{
    let fns = table_fns(m, first as int, last)->Ok_0;
    let ret = m.r64(c.rsp())->Ok_0;
    lemma_tables_after(driver, stack, fns, ret, c.rsp(), back, k);
    let f = InittermView { remaining: fns.skip(k as int + 1), ret, saved_rsp: c.rsp() };
    assert(stack.push(f).drop_last() =~= stack);
}

} // verus!
