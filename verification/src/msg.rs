//! Message queues and message records.

use vstd::prelude::*;

use crate::call::{args, args_at};
use crate::cpu::{CpuState, CpuView};
use crate::gstr::byte_table;
use crate::mem::{
    at, ga, s32, s64, store32, store64, Fault, Load, MemView, Store, VirtualMemory,
};
use crate::sched::{PostedMsg, SchedView, Scheduler, ThreadView};

verus! {

pub const WM_QUIT: u32 = 0x0012;

pub const WM_KEYDOWN: u32 = 0x0100;

pub const WM_CHAR: u32 = 0x0102;

pub const WM_SYSKEYDOWN: u32 = 0x0104;

pub const WM_SYSCHAR: u32 = 0x0106;

// ---- queues -----------------------------------------------------------------

/// The message that ends a message loop with a code.
pub open spec fn quit_msg(code: i32) -> PostedMsg {
    PostedMsg { hwnd: 0, message: WM_QUIT, wparam: (code as u32) as u64, lparam: 0 }
}

/// The next message of a thread: the oldest one posted, or, once none is left, a
/// posted quit.
pub open spec fn next_msg(t: ThreadView) -> Option<PostedMsg> {
    if t.msgs.len() > 0 {
        Some(t.msgs[0])
    } else {
        match t.quit_code {
            Some(code) => Some(quit_msg(code)),
            None => None,
        }
    }
}

/// A thread without its next message.
pub open spec fn msg_taken(t: ThreadView) -> ThreadView {
    if t.msgs.len() > 0 {
        ThreadView { msgs: t.msgs.skip(1), ..t }
    } else {
        ThreadView { quit_code: None, ..t }
    }
}

/// A thread with one more message.
pub open spec fn msg_posted(t: ThreadView, m: PostedMsg) -> ThreadView {
    ThreadView { msgs: t.msgs.push(m), ..t }
}

/// A thread after `n` messages were taken.
pub open spec fn after_taking(t: ThreadView, n: nat) -> ThreadView
    decreases n,
{
    if n == 0 {
        t
    } else {
        msg_taken(after_taking(t, (n - 1) as nat))
    }
}

/// Messages come out in the order they were posted; a quit comes out once, after
/// the last of them; then there is none.
pub proof fn lemma_queue_order(t: ThreadView, n: nat)
    ensures
        n < t.msgs.len() ==> next_msg(after_taking(t, n)) == Some(t.msgs[n as int]),
        n == t.msgs.len() ==> next_msg(after_taking(t, n)) == (match t.quit_code {
            Some(code) => Some(quit_msg(code)),
            None => None,
        }),
        n > t.msgs.len() ==> next_msg(after_taking(t, n)) is None,
        n <= t.msgs.len() ==> after_taking(t, n).msgs == t.msgs.skip(n as int) && after_taking(
            t,
            n,
        ).quit_code == t.quit_code,
        n > t.msgs.len() ==> after_taking(t, n).msgs.len() == 0 && after_taking(
            t,
            n,
        ).quit_code is None,
    decreases n,
{
    if n == 0 {
        assert(t.msgs.skip(0) =~= t.msgs);
    } else {
        let p = (n - 1) as nat;
        lemma_queue_order(t, p);
        if n <= t.msgs.len() {
            assert(t.msgs.skip(p as int).skip(1) =~= t.msgs.skip(n as int));
        }
    }
}

/// What a message call leads to.
pub struct MsgOut {
    pub sched: SchedView,
    pub error: u32,
    pub r: Result<u64, Fault>,
}

/// `PostMessage`: to the running thread; a quit message asks for its end.
#[verifier::opaque]
pub open spec fn post_out(s: SchedView, error: u32, is_64bit: bool, c: CpuView, m: MemView) -> MsgOut {
    match args_at(is_64bit, c, m, seq![0, 1, 2, 3]) {
        Err(f) => MsgOut { sched: s, error, r: Err(f) },
        Ok(a) => MsgOut {
            sched: s.with_thread(
                s.current,
                if a[1] as u32 == WM_QUIT {
                    ThreadView { quit_code: Some(a[2] as i32), ..s.me() }
                } else {
                    msg_posted(
                        s.me(),
                        PostedMsg {
                            hwnd: a[0],
                            message: a[1] as u32,
                            wparam: a[2],
                            lparam: a[3],
                        },
                    )
                },
            ),
            error,
            r: Ok(1),
        },
    }
}

/// `PostThreadMessage`: to the thread with an id, where there is one.
#[verifier::opaque]
pub open spec fn post_thread_out(
    s: SchedView,
    error: u32,
    is_64bit: bool,
    c: CpuView,
    m: MemView,
) -> MsgOut {
    match args_at(is_64bit, c, m, seq![0, 1, 2, 3]) {
        Err(f) => MsgOut { sched: s, error, r: Err(f) },
        Ok(a) => match s.by_tid(a[0] as u32) {
            None => MsgOut { sched: s, error: 1444, r: Ok(0) },
            Some(i) => MsgOut {
                sched: s.with_thread(
                    i,
                    msg_posted(
                        s.threads[i],
                        PostedMsg { hwnd: 0, message: a[1] as u32, wparam: a[2], lparam: a[3] },
                    ),
                ),
                error,
                r: Ok(1),
            },
        },
    }
}

/// The character of a virtual key: digits and small letters, space, and the
/// control keys that have one.
pub open spec fn key_char(vk: u32) -> Option<u64> {
    if vk == 0x08 || vk == 0x09 || vk == 0x0D || vk == 0x1B || vk == 0x20 {
        Some(vk as u64)
    } else if 0x30 <= vk <= 0x39 {
        Some(vk as u64)
    } else if 0x41 <= vk <= 0x5A {
        Some((vk + 0x20) as u64)
    } else {
        None
    }
}

/// The character of a virtual key.
pub fn vkey_to_char(vk: u32) -> (r: Option<u64>)
    ensures
        r == key_char(vk),
{
    if vk == 0x08 || vk == 0x09 || vk == 0x0D || vk == 0x1B || vk == 0x20 {
        Some(vk as u64)
    } else if 0x30 <= vk && vk <= 0x39 {
        Some(vk as u64)
    } else if 0x41 <= vk && vk <= 0x5A {
        Some(vk as u64 + 0x20)
    } else {
        None
    }
}

// ---- records ----------------------------------------------------------------

/// The stores of a message record: zeros, then window, message and parameters.
pub open spec fn msg_table(is_64bit: bool, p: u64, m: PostedMsg) -> Seq<Store> {
    if p == 0 {
        Seq::empty()
    } else if is_64bit {
        byte_table(p, crate::fs::zeros(48)) + seq![
            s64(p, m.hwnd),
            s32(ga(p, 8), m.message),
            s64(ga(p, 16), m.wparam),
            s64(ga(p, 24), m.lparam),
        ]
    } else {
        byte_table(p, crate::fs::zeros(28)) + seq![
            s32(p, m.hwnd as u32),
            s32(ga(p, 4), m.message),
            s32(ga(p, 8), m.wparam as u32),
            s32(ga(p, 12), m.lparam as u32),
        ]
    }
}

/// Write a message record; a null pointer takes none.
pub fn write_msg_full(is_64bit: bool, mem: &mut VirtualMemory, p: u64, m: PostedMsg) -> (r: Result<
    (),
    Fault,
>)
    ensures
        final(mem)@ == old(mem)@.store_all(msg_table(is_64bit, p, m)).mem,
        r == crate::mem::fault_result(old(mem)@.store_all(msg_table(is_64bit, p, m)).fault),
{
    let mut t: Vec<Store> = Vec::new();
    if p != 0 {
        let z = crate::fs::zero_bytes(
            if is_64bit {
                48
            } else {
                28
            },
        );
        t = crate::gstr::byte_stores(p, &z);
        if is_64bit {
            t.push(store64(p, m.hwnd));
            t.push(store32(at(p, 8), m.message));
            t.push(store64(at(p, 16), m.wparam));
            t.push(store64(at(p, 24), m.lparam));
        } else {
            t.push(store32(p, m.hwnd as u32));
            t.push(store32(at(p, 4), m.message));
            t.push(store32(at(p, 8), m.wparam as u32));
            t.push(store32(at(p, 12), m.lparam as u32));
        }
    }
    assert(t@ =~= msg_table(is_64bit, p, m));
    mem.store_all(&t)
}

/// The loads of a message record.
pub open spec fn msg_loads(is_64bit: bool, p: u64) -> Seq<Load> {
    if is_64bit {
        seq![
            Load { addr: p, size: 8 },
            Load { addr: ga(p, 8), size: 4 },
            Load { addr: ga(p, 16), size: 8 },
            Load { addr: ga(p, 24), size: 8 },
        ]
    } else {
        seq![
            Load { addr: p, size: 4 },
            Load { addr: ga(p, 4), size: 4 },
            Load { addr: ga(p, 8), size: 4 },
            Load { addr: ga(p, 12), size: 4 },
        ]
    }
}

/// Read a message record: window, message and parameters.
pub fn read_msg(is_64bit: bool, mem: &VirtualMemory, p: u64) -> (r: Result<Vec<u64>, Fault>)
    ensures
        match r {
            Ok(v) => mem@.load_all(msg_loads(is_64bit, p)) == Ok::<Seq<u64>, Fault>(v@) && v.len()
                == 4,
            Err(f) => mem@.load_all(msg_loads(is_64bit, p)) == Err::<Seq<u64>, Fault>(f),
        },
{
    let t: Vec<Load> = if is_64bit {
        vec![
            Load { addr: p, size: 8 },
            Load { addr: at(p, 8), size: 4 },
            Load { addr: at(p, 16), size: 8 },
            Load { addr: at(p, 24), size: 8 },
        ]
    } else {
        vec![
            Load { addr: p, size: 4 },
            Load { addr: at(p, 4), size: 4 },
            Load { addr: at(p, 8), size: 4 },
            Load { addr: at(p, 12), size: 4 },
        ]
    };
    assert(t@ =~= msg_loads(is_64bit, p));
    mem.load_all(&t)
}

/// `TranslateMessage`: a key press is answered with 1, and its character, where it
/// has one, is posted to the running thread.
pub open spec fn translate_out(s: SchedView, is_64bit: bool, c: CpuView, m: MemView) -> (
    SchedView,
    Result<u64, Fault>,
) {
    match args_at(is_64bit, c, m, seq![0]) {
        Err(f) => (s, Err(f)),
        Ok(a) => if a[0] == 0 {
            (s, Ok(0))
        } else {
            match m.load_all(msg_loads(is_64bit, a[0])) {
                Err(f) => (s, Err(f)),
                Ok(v) => if v[1] as u32 == WM_KEYDOWN || v[1] as u32 == WM_SYSKEYDOWN {
                    let message = if v[1] as u32 == WM_KEYDOWN {
                        WM_CHAR
                    } else {
                        WM_SYSCHAR
                    };
                    match key_char(v[2] as u32) {
                        None => (s, Ok(1)),
                        Some(ch) => (
                            s.with_thread(
                                s.current,
                                msg_posted(
                                    s.me(),
                                    PostedMsg { hwnd: v[0], message, wparam: ch, lparam: 0 },
                                ),
                            ),
                            Ok(1),
                        ),
                    }
                } else {
                    (s, Ok(0))
                },
            }
        },
    }
}

impl Scheduler {
    /// Add a message to the queue of thread `i`.
    pub fn enqueue(&mut self, i: usize, m: PostedMsg)
        requires
            i < old(self).threads.len(),
        ensures
            final(self)@ == old(self)@.with_thread(
                i as int,
                msg_posted(old(self)@.threads[i as int], m),
            ),
            old(self)@.wf() ==> final(self)@.wf(),
    {
        let ghost v = self@;
        let mut t = self.threads.remove(i);
        t.msgs.push(m);
        self.threads.insert(i, t);
        assert(self@.threads =~= v.with_thread(i as int, msg_posted(v.threads[i as int], m)).threads);
    }

    /// Post a message to the running thread.
    pub fn post_internal(&mut self, m: PostedMsg)
        requires
            old(self)@.wf(),
        ensures
            final(self)@ == old(self)@.with_thread(
                old(self)@.current,
                msg_posted(old(self)@.me(), m),
            ),
            final(self)@.wf(),
    {
        let i: usize = self.current;
        self.enqueue(i, m);
    }

    /// Ask the running thread to quit once its queue is empty.
    pub fn set_quit(&mut self, code: i32)
        requires
            old(self)@.wf(),
        ensures
            final(self)@ == old(self)@.with_thread(
                old(self)@.current,
                ThreadView { quit_code: Some(code), ..old(self)@.me() },
            ),
            final(self)@.wf(),
    {
        let ghost v = self@;
        let i: usize = self.current;
        let mut t = self.threads.remove(i);
        t.quit_code = Some(code);
        self.threads.insert(i, t);
        assert(self@.threads =~= v.with_thread(
            v.current,
            ThreadView { quit_code: Some(code), ..v.me() },
        ).threads);
    }

    /// Take the next message of the running thread.
    pub fn msg_next(&mut self) -> (r: Option<PostedMsg>)
        requires
            old(self)@.wf(),
        ensures
            r == next_msg(old(self)@.me()),
            final(self)@ == old(self)@.with_thread(
                old(self)@.current,
                msg_taken(old(self)@.me()),
            ),
            final(self)@.wf(),
    {
        let ghost v = self@;
        let i: usize = self.current;
        let mut t = self.threads.remove(i);
        let ghost tv = t@;
        let r: Option<PostedMsg> = if t.msgs.len() > 0 {
            let m = t.msgs.remove(0);
            assert(t.msgs@ =~= tv.msgs.skip(1));
            Some(m)
        } else {
            match t.quit_code {
                Some(code) => {
                    t.quit_code = None;
                    Some(
                        PostedMsg {
                            hwnd: 0,
                            message: WM_QUIT,
                            wparam: (code as u32) as u64,
                            lparam: 0,
                        },
                    )
                },
                None => None,
            }
        };
        self.threads.insert(i, t);
        assert(self@.threads =~= v.with_thread(v.current, msg_taken(v.me())).threads);
        r
    }

    /// The next message of the running thread, taken where `remove`.
    pub fn msg_peek(&mut self, remove: bool) -> (r: Option<PostedMsg>)
        requires
            old(self)@.wf(),
        ensures
            r == next_msg(old(self)@.me()),
            final(self)@ == (if remove {
                old(self)@.with_thread(old(self)@.current, msg_taken(old(self)@.me()))
            } else {
                old(self)@
            }),
            final(self)@.wf(),
    {
        if remove {
            return self.msg_next();
        }
        let t = &self.threads[self.current];
        assert(self@.me() == t@);
        if t.msgs.len() > 0 {
            return Some(t.msgs[0]);
        }
        match t.quit_code {
            Some(code) => Some(
                PostedMsg { hwnd: 0, message: WM_QUIT, wparam: (code as u32) as u64, lparam: 0 },
            ),
            None => None,
        }
    }

    /// `PostMessage`.
    pub fn post_message(&mut self, error: &mut u32, is_64bit: bool, cpu: &CpuState, mem: &VirtualMemory) -> (r:
        Result<u64, Fault>)
        requires
            old(self)@.wf(),
        ensures
            ({
                let o = post_out(old(self)@, *old(error), is_64bit, cpu@, mem@);
                final(self)@ == o.sched && *final(error) == o.error && r == o.r
            }),
            final(self)@.wf(),
    {
        proof {
            reveal(post_out);
        }
        let list: Vec<u64> = vec![0, 1, 2, 3];
        assert(list@ =~= seq![0u64, 1, 2, 3]);
        let a = match args(is_64bit, cpu, mem, &list) {
            Ok(v) => v,
            Err(f) => {
                return Err(f);
            },
        };
        let message: u32 = a[1] as u32;
        if message == WM_QUIT {
            self.set_quit(a[2] as i32);
        } else {
            self.post_internal(
                PostedMsg { hwnd: a[0], message, wparam: a[2], lparam: a[3] },
            );
        }
        Ok(1)
    }

    /// `PostThreadMessage`.
    pub fn post_thread_message(
        &mut self,
        error: &mut u32,
        is_64bit: bool,
        cpu: &CpuState,
        mem: &VirtualMemory,
    ) -> (r: Result<u64, Fault>)
        requires
            old(self)@.wf(),
        ensures
            ({
                let o = post_thread_out(old(self)@, *old(error), is_64bit, cpu@, mem@);
                final(self)@ == o.sched && *final(error) == o.error && r == o.r
            }),
            final(self)@.wf(),
    {
        proof {
            reveal(post_thread_out);
        }
        let list: Vec<u64> = vec![0, 1, 2, 3];
        assert(list@ =~= seq![0u64, 1, 2, 3]);
        let a = match args(is_64bit, cpu, mem, &list) {
            Ok(v) => v,
            Err(f) => {
                return Err(f);
            },
        };
        match self.thread_by_tid(a[0] as u32) {
            Some(i) => {
                self.enqueue(
                    i,
                    PostedMsg { hwnd: 0, message: a[1] as u32, wparam: a[2], lparam: a[3] },
                );
                Ok(1)
            },
            None => {
                *error = 1444;
                Ok(0)
            },
        }
    }

    /// `PostQuitMessage`.
    pub fn post_quit_message(&mut self, is_64bit: bool, cpu: &CpuState, mem: &VirtualMemory) -> (r:
        Result<u64, Fault>)
        requires
            old(self)@.wf(),
        ensures
            match args_at(is_64bit, cpu@, mem@, seq![0]) {
                Err(f) => r == Err::<u64, Fault>(f) && final(self)@ == old(self)@,
                Ok(a) => r == Ok::<u64, Fault>(0) && final(self)@ == old(self)@.with_thread(
                    old(self)@.current,
                    ThreadView { quit_code: Some(a[0] as i32), ..old(self)@.me() },
                ),
            },
            final(self)@.wf(),
    {
        let list: Vec<u64> = vec![0];
        assert(list@ =~= seq![0u64]);
        let a = match args(is_64bit, cpu, mem, &list) {
            Ok(v) => v,
            Err(f) => {
                return Err(f);
            },
        };
        self.set_quit(a[0] as i32);
        Ok(0)
    }

    /// `TranslateMessage`.
    pub fn translate_message(&mut self, is_64bit: bool, cpu: &CpuState, mem: &VirtualMemory) -> (r:
        Result<u64, Fault>)
        requires
            old(self)@.wf(),
        ensures
            (final(self)@, r) == translate_out(old(self)@, is_64bit, cpu@, mem@),
            final(self)@.wf(),
    {
        let list: Vec<u64> = vec![0];
        assert(list@ =~= seq![0u64]);
        let a = match args(is_64bit, cpu, mem, &list) {
            Ok(v) => v,
            Err(f) => {
                return Err(f);
            },
        };
        if a[0] == 0 {
            return Ok(0);
        }
        let v = match read_msg(is_64bit, mem, a[0]) {
            Ok(v) => v,
            Err(f) => {
                return Err(f);
            },
        };
        let message: u32 = v[1] as u32;
        let posted: u32 = if message == WM_KEYDOWN {
            WM_CHAR
        } else if message == WM_SYSKEYDOWN {
            WM_SYSCHAR
        } else {
            return Ok(0);
        };
        match vkey_to_char(v[2] as u32) {
            Some(ch) => {
                self.post_internal(
                    PostedMsg { hwnd: v[0], message: posted, wparam: ch, lparam: 0 },
                );
            },
            None => {},
        }
        Ok(1)
    }
}

} // verus!
